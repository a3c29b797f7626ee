//! What import gives back of an export.
use crate::contract::{self, Grade, Record};
use crate::json::{self, Json};
use crate::otlp;
use crate::otlp_import as back;
use crate::reduce;
use crate::text;
use vstd::prelude::*;

verus! {

/// The keys of data points and their bodies differ.
proof fn lemma_point_keys()
    ensures
        "attributes"@ != "timeUnixNano"@,
        "attributes"@ != "count"@,
        "attributes"@ != "sum"@,
        "attributes"@ != "scale"@,
        "attributes"@ != "zeroCount"@,
        "attributes"@ != "positive"@,
        "attributes"@ != "explicitBounds"@,
        "attributes"@ != "bucketCounts"@,
        "attributes"@ != "asInt"@,
        "attributes"@ != "startTimeUnixNano"@,
        "attributes"@ != "asDouble"@,
        "attributes"@ != "offset"@,
        "attributes"@ != "aggregationTemporality"@,
        "attributes"@ != "dataPoints"@,
        "attributes"@ != "isMonotonic"@,
        "timeUnixNano"@ != "count"@,
        "timeUnixNano"@ != "sum"@,
        "timeUnixNano"@ != "scale"@,
        "timeUnixNano"@ != "zeroCount"@,
        "timeUnixNano"@ != "positive"@,
        "timeUnixNano"@ != "explicitBounds"@,
        "timeUnixNano"@ != "bucketCounts"@,
        "timeUnixNano"@ != "asInt"@,
        "timeUnixNano"@ != "startTimeUnixNano"@,
        "timeUnixNano"@ != "asDouble"@,
        "timeUnixNano"@ != "offset"@,
        "timeUnixNano"@ != "aggregationTemporality"@,
        "timeUnixNano"@ != "dataPoints"@,
        "timeUnixNano"@ != "isMonotonic"@,
        "count"@ != "sum"@,
        "count"@ != "scale"@,
        "count"@ != "zeroCount"@,
        "count"@ != "positive"@,
        "count"@ != "explicitBounds"@,
        "count"@ != "bucketCounts"@,
        "count"@ != "asInt"@,
        "count"@ != "startTimeUnixNano"@,
        "count"@ != "asDouble"@,
        "count"@ != "offset"@,
        "count"@ != "aggregationTemporality"@,
        "count"@ != "dataPoints"@,
        "count"@ != "isMonotonic"@,
        "sum"@ != "scale"@,
        "sum"@ != "zeroCount"@,
        "sum"@ != "positive"@,
        "sum"@ != "explicitBounds"@,
        "sum"@ != "bucketCounts"@,
        "sum"@ != "asInt"@,
        "sum"@ != "startTimeUnixNano"@,
        "sum"@ != "asDouble"@,
        "sum"@ != "offset"@,
        "sum"@ != "aggregationTemporality"@,
        "sum"@ != "dataPoints"@,
        "sum"@ != "isMonotonic"@,
        "scale"@ != "zeroCount"@,
        "scale"@ != "positive"@,
        "scale"@ != "explicitBounds"@,
        "scale"@ != "bucketCounts"@,
        "scale"@ != "asInt"@,
        "scale"@ != "startTimeUnixNano"@,
        "scale"@ != "asDouble"@,
        "scale"@ != "offset"@,
        "scale"@ != "aggregationTemporality"@,
        "scale"@ != "dataPoints"@,
        "scale"@ != "isMonotonic"@,
        "zeroCount"@ != "positive"@,
        "zeroCount"@ != "explicitBounds"@,
        "zeroCount"@ != "bucketCounts"@,
        "zeroCount"@ != "asInt"@,
        "zeroCount"@ != "startTimeUnixNano"@,
        "zeroCount"@ != "asDouble"@,
        "zeroCount"@ != "offset"@,
        "zeroCount"@ != "aggregationTemporality"@,
        "zeroCount"@ != "dataPoints"@,
        "zeroCount"@ != "isMonotonic"@,
        "positive"@ != "explicitBounds"@,
        "positive"@ != "bucketCounts"@,
        "positive"@ != "asInt"@,
        "positive"@ != "startTimeUnixNano"@,
        "positive"@ != "asDouble"@,
        "positive"@ != "offset"@,
        "positive"@ != "aggregationTemporality"@,
        "positive"@ != "dataPoints"@,
        "positive"@ != "isMonotonic"@,
        "explicitBounds"@ != "bucketCounts"@,
        "explicitBounds"@ != "asInt"@,
        "explicitBounds"@ != "startTimeUnixNano"@,
        "explicitBounds"@ != "asDouble"@,
        "explicitBounds"@ != "offset"@,
        "explicitBounds"@ != "aggregationTemporality"@,
        "explicitBounds"@ != "dataPoints"@,
        "explicitBounds"@ != "isMonotonic"@,
        "bucketCounts"@ != "asInt"@,
        "bucketCounts"@ != "startTimeUnixNano"@,
        "bucketCounts"@ != "asDouble"@,
        "bucketCounts"@ != "offset"@,
        "bucketCounts"@ != "aggregationTemporality"@,
        "bucketCounts"@ != "dataPoints"@,
        "bucketCounts"@ != "isMonotonic"@,
        "asInt"@ != "startTimeUnixNano"@,
        "asInt"@ != "asDouble"@,
        "asInt"@ != "offset"@,
        "asInt"@ != "aggregationTemporality"@,
        "asInt"@ != "dataPoints"@,
        "asInt"@ != "isMonotonic"@,
        "startTimeUnixNano"@ != "asDouble"@,
        "startTimeUnixNano"@ != "offset"@,
        "startTimeUnixNano"@ != "aggregationTemporality"@,
        "startTimeUnixNano"@ != "dataPoints"@,
        "startTimeUnixNano"@ != "isMonotonic"@,
        "asDouble"@ != "offset"@,
        "asDouble"@ != "aggregationTemporality"@,
        "asDouble"@ != "dataPoints"@,
        "asDouble"@ != "isMonotonic"@,
        "offset"@ != "aggregationTemporality"@,
        "offset"@ != "dataPoints"@,
        "offset"@ != "isMonotonic"@,
        "aggregationTemporality"@ != "dataPoints"@,
        "aggregationTemporality"@ != "isMonotonic"@,
        "dataPoints"@ != "isMonotonic"@,
{
    reveal_strlit("attributes");
    assert("attributes"@.len() == 10);
    reveal_strlit("timeUnixNano");
    assert("timeUnixNano"@.len() == 12);
    reveal_strlit("count");
    assert("count"@.len() == 5);
    reveal_strlit("sum");
    assert("sum"@.len() == 3);
    reveal_strlit("scale");
    assert("scale"@.len() == 5);
    reveal_strlit("zeroCount");
    assert("zeroCount"@.len() == 9);
    reveal_strlit("positive");
    assert("positive"@.len() == 8);
    reveal_strlit("explicitBounds");
    assert("explicitBounds"@.len() == 14);
    reveal_strlit("bucketCounts");
    assert("bucketCounts"@.len() == 12);
    reveal_strlit("asInt");
    assert("asInt"@.len() == 5);
    reveal_strlit("startTimeUnixNano");
    assert("startTimeUnixNano"@.len() == 17);
    reveal_strlit("asDouble");
    assert("asDouble"@.len() == 8);
    reveal_strlit("offset");
    assert("offset"@.len() == 6);
    reveal_strlit("aggregationTemporality");
    assert("aggregationTemporality"@.len() == 22);
    reveal_strlit("dataPoints");
    assert("dataPoints"@.len() == 10);
    reveal_strlit("isMonotonic");
    assert("isMonotonic"@.len() == 11);
    assert("attributes"@[0] != "dataPoints"@[0]);
    assert("timeUnixNano"@[0] != "bucketCounts"@[0]);
    assert("count"@[0] != "scale"@[0]);
    assert("count"@[0] != "asInt"@[0]);
    assert("scale"@[0] != "asInt"@[0]);
    assert("positive"@[0] != "asDouble"@[0]);
}

/// The keys of metrics differ.
proof fn lemma_metric_keys()
    ensures
        "name"@ != "unit"@,
        "name"@ != "exponentialHistogram"@,
        "name"@ != "histogram"@,
        "name"@ != "sum"@,
        "name"@ != "gauge"@,
        "unit"@ != "exponentialHistogram"@,
        "unit"@ != "histogram"@,
        "unit"@ != "sum"@,
        "unit"@ != "gauge"@,
        "exponentialHistogram"@ != "histogram"@,
        "exponentialHistogram"@ != "sum"@,
        "exponentialHistogram"@ != "gauge"@,
        "histogram"@ != "sum"@,
        "histogram"@ != "gauge"@,
        "sum"@ != "gauge"@,
{
    reveal_strlit("name");
    assert("name"@.len() == 4);
    reveal_strlit("unit");
    assert("unit"@.len() == 4);
    reveal_strlit("exponentialHistogram");
    assert("exponentialHistogram"@.len() == 20);
    reveal_strlit("histogram");
    assert("histogram"@.len() == 9);
    reveal_strlit("sum");
    assert("sum"@.len() == 3);
    reveal_strlit("gauge");
    assert("gauge"@.len() == 5);
    assert("name"@[0] != "unit"@[0]);
}

/// The keys of spans differ.
proof fn lemma_span_keys()
    ensures
        "traceId"@ != "spanId"@,
        "traceId"@ != "parentSpanId"@,
        "traceId"@ != "name"@,
        "traceId"@ != "kind"@,
        "traceId"@ != "startTimeUnixNano"@,
        "traceId"@ != "endTimeUnixNano"@,
        "traceId"@ != "attributes"@,
        "spanId"@ != "parentSpanId"@,
        "spanId"@ != "name"@,
        "spanId"@ != "kind"@,
        "spanId"@ != "startTimeUnixNano"@,
        "spanId"@ != "endTimeUnixNano"@,
        "spanId"@ != "attributes"@,
        "parentSpanId"@ != "name"@,
        "parentSpanId"@ != "kind"@,
        "parentSpanId"@ != "startTimeUnixNano"@,
        "parentSpanId"@ != "endTimeUnixNano"@,
        "parentSpanId"@ != "attributes"@,
        "name"@ != "kind"@,
        "name"@ != "startTimeUnixNano"@,
        "name"@ != "endTimeUnixNano"@,
        "name"@ != "attributes"@,
        "kind"@ != "startTimeUnixNano"@,
        "kind"@ != "endTimeUnixNano"@,
        "kind"@ != "attributes"@,
        "startTimeUnixNano"@ != "endTimeUnixNano"@,
        "startTimeUnixNano"@ != "attributes"@,
        "endTimeUnixNano"@ != "attributes"@,
{
    reveal_strlit("traceId");
    assert("traceId"@.len() == 7);
    reveal_strlit("spanId");
    assert("spanId"@.len() == 6);
    reveal_strlit("parentSpanId");
    assert("parentSpanId"@.len() == 12);
    reveal_strlit("name");
    assert("name"@.len() == 4);
    reveal_strlit("kind");
    assert("kind"@.len() == 4);
    reveal_strlit("startTimeUnixNano");
    assert("startTimeUnixNano"@.len() == 17);
    reveal_strlit("endTimeUnixNano");
    assert("endTimeUnixNano"@.len() == 15);
    reveal_strlit("attributes");
    assert("attributes"@.len() == 10);
    assert("name"@[0] != "kind"@[0]);
}

/// The keys of documents differ.
proof fn lemma_document_keys()
    ensures
        "resourceSpans"@ != "resourceMetrics"@,
        "resourceSpans"@ != "resource"@,
        "resourceSpans"@ != "scopeSpans"@,
        "resourceSpans"@ != "scopeMetrics"@,
        "resourceSpans"@ != "scope"@,
        "resourceSpans"@ != "spans"@,
        "resourceSpans"@ != "metrics"@,
        "resourceSpans"@ != "attributes"@,
        "resourceMetrics"@ != "resource"@,
        "resourceMetrics"@ != "scopeSpans"@,
        "resourceMetrics"@ != "scopeMetrics"@,
        "resourceMetrics"@ != "scope"@,
        "resourceMetrics"@ != "spans"@,
        "resourceMetrics"@ != "metrics"@,
        "resourceMetrics"@ != "attributes"@,
        "resource"@ != "scopeSpans"@,
        "resource"@ != "scopeMetrics"@,
        "resource"@ != "scope"@,
        "resource"@ != "spans"@,
        "resource"@ != "metrics"@,
        "resource"@ != "attributes"@,
        "scopeSpans"@ != "scopeMetrics"@,
        "scopeSpans"@ != "scope"@,
        "scopeSpans"@ != "spans"@,
        "scopeSpans"@ != "metrics"@,
        "scopeSpans"@ != "attributes"@,
        "scopeMetrics"@ != "scope"@,
        "scopeMetrics"@ != "spans"@,
        "scopeMetrics"@ != "metrics"@,
        "scopeMetrics"@ != "attributes"@,
        "scope"@ != "spans"@,
        "scope"@ != "metrics"@,
        "scope"@ != "attributes"@,
        "spans"@ != "metrics"@,
        "spans"@ != "attributes"@,
        "metrics"@ != "attributes"@,
{
    reveal_strlit("resourceSpans");
    assert("resourceSpans"@.len() == 13);
    reveal_strlit("resourceMetrics");
    assert("resourceMetrics"@.len() == 15);
    reveal_strlit("resource");
    assert("resource"@.len() == 8);
    reveal_strlit("scopeSpans");
    assert("scopeSpans"@.len() == 10);
    reveal_strlit("scopeMetrics");
    assert("scopeMetrics"@.len() == 12);
    reveal_strlit("scope");
    assert("scope"@.len() == 5);
    reveal_strlit("spans");
    assert("spans"@.len() == 5);
    reveal_strlit("metrics");
    assert("metrics"@.len() == 7);
    reveal_strlit("attributes");
    assert("attributes"@.len() == 10);
    assert("scopeSpans"@[0] != "attributes"@[0]);
    assert("scope"@[1] != "spans"@[1]);
}

/// The keys of attributes differ.
proof fn lemma_attribute_keys()
    ensures
        "key"@ != "value"@,
{
    reveal_strlit("key");
    assert("key"@.len() == 3);
    reveal_strlit("value");
    assert("value"@.len() == 5);
}

/// The names of resource attributes differ.
proof fn lemma_resource_keys()
    ensures
        "host.name"@ != "os.version"@,
        "host.name"@ != "os.description"@,
        "host.name"@ != "host.cpu.model.name"@,
        "host.name"@ != "assayist.host.cpu_count_logical"@,
        "host.name"@ != "assayist.host.cpu_count_physical"@,
        "host.name"@ != "assayist.host.smt_enabled"@,
        "host.name"@ != "assayist.host.cpu_governor"@,
        "host.name"@ != "assayist.host.thp"@,
        "host.name"@ != "assayist.host.memory_bytes"@,
        "host.name"@ != "assayist.host.kvm"@,
        "host.name"@ != "assayist.run.tenancy"@,
        "host.name"@ != "assayist.target_adapter"@,
        "host.name"@ != "assayist.target_adapter_version"@,
        "host.name"@ != "assayist.workload_driver"@,
        "host.name"@ != "assayist.workload_driver_version"@,
        "host.name"@ != "assayist.sut_git_sha"@,
        "host.name"@ != "assayist.params_hash"@,
        "host.name"@ != "assayist.benchmark_def_sha"@,
        "os.version"@ != "os.description"@,
        "os.version"@ != "host.cpu.model.name"@,
        "os.version"@ != "assayist.host.cpu_count_logical"@,
        "os.version"@ != "assayist.host.cpu_count_physical"@,
        "os.version"@ != "assayist.host.smt_enabled"@,
        "os.version"@ != "assayist.host.cpu_governor"@,
        "os.version"@ != "assayist.host.thp"@,
        "os.version"@ != "assayist.host.memory_bytes"@,
        "os.version"@ != "assayist.host.kvm"@,
        "os.version"@ != "assayist.run.tenancy"@,
        "os.version"@ != "assayist.target_adapter"@,
        "os.version"@ != "assayist.target_adapter_version"@,
        "os.version"@ != "assayist.workload_driver"@,
        "os.version"@ != "assayist.workload_driver_version"@,
        "os.version"@ != "assayist.sut_git_sha"@,
        "os.version"@ != "assayist.params_hash"@,
        "os.version"@ != "assayist.benchmark_def_sha"@,
        "os.description"@ != "host.cpu.model.name"@,
        "os.description"@ != "assayist.host.cpu_count_logical"@,
        "os.description"@ != "assayist.host.cpu_count_physical"@,
        "os.description"@ != "assayist.host.smt_enabled"@,
        "os.description"@ != "assayist.host.cpu_governor"@,
        "os.description"@ != "assayist.host.thp"@,
        "os.description"@ != "assayist.host.memory_bytes"@,
        "os.description"@ != "assayist.host.kvm"@,
        "os.description"@ != "assayist.run.tenancy"@,
        "os.description"@ != "assayist.target_adapter"@,
        "os.description"@ != "assayist.target_adapter_version"@,
        "os.description"@ != "assayist.workload_driver"@,
        "os.description"@ != "assayist.workload_driver_version"@,
        "os.description"@ != "assayist.sut_git_sha"@,
        "os.description"@ != "assayist.params_hash"@,
        "os.description"@ != "assayist.benchmark_def_sha"@,
        "host.cpu.model.name"@ != "assayist.host.cpu_count_logical"@,
        "host.cpu.model.name"@ != "assayist.host.cpu_count_physical"@,
        "host.cpu.model.name"@ != "assayist.host.smt_enabled"@,
        "host.cpu.model.name"@ != "assayist.host.cpu_governor"@,
        "host.cpu.model.name"@ != "assayist.host.thp"@,
        "host.cpu.model.name"@ != "assayist.host.memory_bytes"@,
        "host.cpu.model.name"@ != "assayist.host.kvm"@,
        "host.cpu.model.name"@ != "assayist.run.tenancy"@,
        "host.cpu.model.name"@ != "assayist.target_adapter"@,
        "host.cpu.model.name"@ != "assayist.target_adapter_version"@,
        "host.cpu.model.name"@ != "assayist.workload_driver"@,
        "host.cpu.model.name"@ != "assayist.workload_driver_version"@,
        "host.cpu.model.name"@ != "assayist.sut_git_sha"@,
        "host.cpu.model.name"@ != "assayist.params_hash"@,
        "host.cpu.model.name"@ != "assayist.benchmark_def_sha"@,
        "assayist.host.cpu_count_logical"@ != "assayist.host.cpu_count_physical"@,
        "assayist.host.cpu_count_logical"@ != "assayist.host.smt_enabled"@,
        "assayist.host.cpu_count_logical"@ != "assayist.host.cpu_governor"@,
        "assayist.host.cpu_count_logical"@ != "assayist.host.thp"@,
        "assayist.host.cpu_count_logical"@ != "assayist.host.memory_bytes"@,
        "assayist.host.cpu_count_logical"@ != "assayist.host.kvm"@,
        "assayist.host.cpu_count_logical"@ != "assayist.run.tenancy"@,
        "assayist.host.cpu_count_logical"@ != "assayist.target_adapter"@,
        "assayist.host.cpu_count_logical"@ != "assayist.target_adapter_version"@,
        "assayist.host.cpu_count_logical"@ != "assayist.workload_driver"@,
        "assayist.host.cpu_count_logical"@ != "assayist.workload_driver_version"@,
        "assayist.host.cpu_count_logical"@ != "assayist.sut_git_sha"@,
        "assayist.host.cpu_count_logical"@ != "assayist.params_hash"@,
        "assayist.host.cpu_count_logical"@ != "assayist.benchmark_def_sha"@,
        "assayist.host.cpu_count_physical"@ != "assayist.host.smt_enabled"@,
        "assayist.host.cpu_count_physical"@ != "assayist.host.cpu_governor"@,
        "assayist.host.cpu_count_physical"@ != "assayist.host.thp"@,
        "assayist.host.cpu_count_physical"@ != "assayist.host.memory_bytes"@,
        "assayist.host.cpu_count_physical"@ != "assayist.host.kvm"@,
        "assayist.host.cpu_count_physical"@ != "assayist.run.tenancy"@,
        "assayist.host.cpu_count_physical"@ != "assayist.target_adapter"@,
        "assayist.host.cpu_count_physical"@ != "assayist.target_adapter_version"@,
        "assayist.host.cpu_count_physical"@ != "assayist.workload_driver"@,
        "assayist.host.cpu_count_physical"@ != "assayist.workload_driver_version"@,
        "assayist.host.cpu_count_physical"@ != "assayist.sut_git_sha"@,
        "assayist.host.cpu_count_physical"@ != "assayist.params_hash"@,
        "assayist.host.cpu_count_physical"@ != "assayist.benchmark_def_sha"@,
        "assayist.host.smt_enabled"@ != "assayist.host.cpu_governor"@,
        "assayist.host.smt_enabled"@ != "assayist.host.thp"@,
        "assayist.host.smt_enabled"@ != "assayist.host.memory_bytes"@,
        "assayist.host.smt_enabled"@ != "assayist.host.kvm"@,
        "assayist.host.smt_enabled"@ != "assayist.run.tenancy"@,
        "assayist.host.smt_enabled"@ != "assayist.target_adapter"@,
        "assayist.host.smt_enabled"@ != "assayist.target_adapter_version"@,
        "assayist.host.smt_enabled"@ != "assayist.workload_driver"@,
        "assayist.host.smt_enabled"@ != "assayist.workload_driver_version"@,
        "assayist.host.smt_enabled"@ != "assayist.sut_git_sha"@,
        "assayist.host.smt_enabled"@ != "assayist.params_hash"@,
        "assayist.host.smt_enabled"@ != "assayist.benchmark_def_sha"@,
        "assayist.host.cpu_governor"@ != "assayist.host.thp"@,
        "assayist.host.cpu_governor"@ != "assayist.host.memory_bytes"@,
        "assayist.host.cpu_governor"@ != "assayist.host.kvm"@,
        "assayist.host.cpu_governor"@ != "assayist.run.tenancy"@,
        "assayist.host.cpu_governor"@ != "assayist.target_adapter"@,
        "assayist.host.cpu_governor"@ != "assayist.target_adapter_version"@,
        "assayist.host.cpu_governor"@ != "assayist.workload_driver"@,
        "assayist.host.cpu_governor"@ != "assayist.workload_driver_version"@,
        "assayist.host.cpu_governor"@ != "assayist.sut_git_sha"@,
        "assayist.host.cpu_governor"@ != "assayist.params_hash"@,
        "assayist.host.cpu_governor"@ != "assayist.benchmark_def_sha"@,
        "assayist.host.thp"@ != "assayist.host.memory_bytes"@,
        "assayist.host.thp"@ != "assayist.host.kvm"@,
        "assayist.host.thp"@ != "assayist.run.tenancy"@,
        "assayist.host.thp"@ != "assayist.target_adapter"@,
        "assayist.host.thp"@ != "assayist.target_adapter_version"@,
        "assayist.host.thp"@ != "assayist.workload_driver"@,
        "assayist.host.thp"@ != "assayist.workload_driver_version"@,
        "assayist.host.thp"@ != "assayist.sut_git_sha"@,
        "assayist.host.thp"@ != "assayist.params_hash"@,
        "assayist.host.thp"@ != "assayist.benchmark_def_sha"@,
        "assayist.host.memory_bytes"@ != "assayist.host.kvm"@,
        "assayist.host.memory_bytes"@ != "assayist.run.tenancy"@,
        "assayist.host.memory_bytes"@ != "assayist.target_adapter"@,
        "assayist.host.memory_bytes"@ != "assayist.target_adapter_version"@,
        "assayist.host.memory_bytes"@ != "assayist.workload_driver"@,
        "assayist.host.memory_bytes"@ != "assayist.workload_driver_version"@,
        "assayist.host.memory_bytes"@ != "assayist.sut_git_sha"@,
        "assayist.host.memory_bytes"@ != "assayist.params_hash"@,
        "assayist.host.memory_bytes"@ != "assayist.benchmark_def_sha"@,
        "assayist.host.kvm"@ != "assayist.run.tenancy"@,
        "assayist.host.kvm"@ != "assayist.target_adapter"@,
        "assayist.host.kvm"@ != "assayist.target_adapter_version"@,
        "assayist.host.kvm"@ != "assayist.workload_driver"@,
        "assayist.host.kvm"@ != "assayist.workload_driver_version"@,
        "assayist.host.kvm"@ != "assayist.sut_git_sha"@,
        "assayist.host.kvm"@ != "assayist.params_hash"@,
        "assayist.host.kvm"@ != "assayist.benchmark_def_sha"@,
        "assayist.run.tenancy"@ != "assayist.target_adapter"@,
        "assayist.run.tenancy"@ != "assayist.target_adapter_version"@,
        "assayist.run.tenancy"@ != "assayist.workload_driver"@,
        "assayist.run.tenancy"@ != "assayist.workload_driver_version"@,
        "assayist.run.tenancy"@ != "assayist.sut_git_sha"@,
        "assayist.run.tenancy"@ != "assayist.params_hash"@,
        "assayist.run.tenancy"@ != "assayist.benchmark_def_sha"@,
        "assayist.target_adapter"@ != "assayist.target_adapter_version"@,
        "assayist.target_adapter"@ != "assayist.workload_driver"@,
        "assayist.target_adapter"@ != "assayist.workload_driver_version"@,
        "assayist.target_adapter"@ != "assayist.sut_git_sha"@,
        "assayist.target_adapter"@ != "assayist.params_hash"@,
        "assayist.target_adapter"@ != "assayist.benchmark_def_sha"@,
        "assayist.target_adapter_version"@ != "assayist.workload_driver"@,
        "assayist.target_adapter_version"@ != "assayist.workload_driver_version"@,
        "assayist.target_adapter_version"@ != "assayist.sut_git_sha"@,
        "assayist.target_adapter_version"@ != "assayist.params_hash"@,
        "assayist.target_adapter_version"@ != "assayist.benchmark_def_sha"@,
        "assayist.workload_driver"@ != "assayist.workload_driver_version"@,
        "assayist.workload_driver"@ != "assayist.sut_git_sha"@,
        "assayist.workload_driver"@ != "assayist.params_hash"@,
        "assayist.workload_driver"@ != "assayist.benchmark_def_sha"@,
        "assayist.workload_driver_version"@ != "assayist.sut_git_sha"@,
        "assayist.workload_driver_version"@ != "assayist.params_hash"@,
        "assayist.workload_driver_version"@ != "assayist.benchmark_def_sha"@,
        "assayist.sut_git_sha"@ != "assayist.params_hash"@,
        "assayist.sut_git_sha"@ != "assayist.benchmark_def_sha"@,
        "assayist.params_hash"@ != "assayist.benchmark_def_sha"@,
{
    reveal_strlit("host.name");
    assert("host.name"@.len() == 9);
    reveal_strlit("os.version");
    assert("os.version"@.len() == 10);
    reveal_strlit("os.description");
    assert("os.description"@.len() == 14);
    reveal_strlit("host.cpu.model.name");
    assert("host.cpu.model.name"@.len() == 19);
    reveal_strlit("assayist.host.cpu_count_logical");
    assert("assayist.host.cpu_count_logical"@.len() == 31);
    reveal_strlit("assayist.host.cpu_count_physical");
    assert("assayist.host.cpu_count_physical"@.len() == 32);
    reveal_strlit("assayist.host.smt_enabled");
    assert("assayist.host.smt_enabled"@.len() == 25);
    reveal_strlit("assayist.host.cpu_governor");
    assert("assayist.host.cpu_governor"@.len() == 26);
    reveal_strlit("assayist.host.thp");
    assert("assayist.host.thp"@.len() == 17);
    reveal_strlit("assayist.host.memory_bytes");
    assert("assayist.host.memory_bytes"@.len() == 26);
    reveal_strlit("assayist.host.kvm");
    assert("assayist.host.kvm"@.len() == 17);
    reveal_strlit("assayist.run.tenancy");
    assert("assayist.run.tenancy"@.len() == 20);
    reveal_strlit("assayist.target_adapter");
    assert("assayist.target_adapter"@.len() == 23);
    reveal_strlit("assayist.target_adapter_version");
    assert("assayist.target_adapter_version"@.len() == 31);
    reveal_strlit("assayist.workload_driver");
    assert("assayist.workload_driver"@.len() == 24);
    reveal_strlit("assayist.workload_driver_version");
    assert("assayist.workload_driver_version"@.len() == 32);
    reveal_strlit("assayist.sut_git_sha");
    assert("assayist.sut_git_sha"@.len() == 20);
    reveal_strlit("assayist.params_hash");
    assert("assayist.params_hash"@.len() == 20);
    reveal_strlit("assayist.benchmark_def_sha");
    assert("assayist.benchmark_def_sha"@.len() == 26);
    assert("assayist.host.cpu_count_logical"@[9] != "assayist.target_adapter_version"@[9]);
    assert("assayist.host.cpu_count_physical"@[9] != "assayist.workload_driver_version"@[9]);
    assert("assayist.host.cpu_governor"@[14] != "assayist.host.memory_bytes"@[14]);
    assert("assayist.host.cpu_governor"@[9] != "assayist.benchmark_def_sha"@[9]);
    assert("assayist.host.thp"@[14] != "assayist.host.kvm"@[14]);
    assert("assayist.host.memory_bytes"@[9] != "assayist.benchmark_def_sha"@[9]);
    assert("assayist.run.tenancy"@[9] != "assayist.sut_git_sha"@[9]);
    assert("assayist.run.tenancy"@[9] != "assayist.params_hash"@[9]);
    assert("assayist.sut_git_sha"@[9] != "assayist.params_hash"@[9]);
}

/// The keys of recorded spans differ.
proof fn lemma_recorded_span_keys()
    ensures
        "name"@ != "start_unix_nano"@,
        "name"@ != "end_unix_nano"@,
        "name"@ != "parent"@,
        "name"@ != "attributes"@,
        "start_unix_nano"@ != "end_unix_nano"@,
        "start_unix_nano"@ != "parent"@,
        "start_unix_nano"@ != "attributes"@,
        "end_unix_nano"@ != "parent"@,
        "end_unix_nano"@ != "attributes"@,
        "parent"@ != "attributes"@,
{
    reveal_strlit("name");
    assert("name"@.len() == 4);
    reveal_strlit("start_unix_nano");
    assert("start_unix_nano"@.len() == 15);
    reveal_strlit("end_unix_nano");
    assert("end_unix_nano"@.len() == 13);
    reveal_strlit("parent");
    assert("parent"@.len() == 6);
    reveal_strlit("attributes");
    assert("attributes"@.len() == 10);
}

/// The keys of attribute values differ.
proof fn lemma_value_keys()
    ensures
        "stringValue"@ != "boolValue"@,
        "stringValue"@ != "doubleValue"@,
        "stringValue"@ != "intValue"@,
        "boolValue"@ != "doubleValue"@,
        "boolValue"@ != "intValue"@,
        "doubleValue"@ != "intValue"@,
{
    reveal_strlit("stringValue");
    assert("stringValue"@.len() == 11);
    reveal_strlit("boolValue");
    assert("boolValue"@.len() == 9);
    reveal_strlit("doubleValue");
    assert("doubleValue"@.len() == 11);
    reveal_strlit("intValue");
    assert("intValue"@.len() == 8);
    assert("stringValue"@[0] != "doubleValue"@[0]);
}

/// The names of kinds, layouts and point attributes differ.
proof fn lemma_kinds()
    ensures
        "histogram"@ != "counter"@,
        "histogram"@ != "gauge"@,
        "histogram"@ != "log2"@,
        "histogram"@ != "explicit"@,
        "histogram"@ != "assayist.source"@,
        "histogram"@ != "assayist.key"@,
        "counter"@ != "gauge"@,
        "counter"@ != "log2"@,
        "counter"@ != "explicit"@,
        "counter"@ != "assayist.source"@,
        "counter"@ != "assayist.key"@,
        "gauge"@ != "log2"@,
        "gauge"@ != "explicit"@,
        "gauge"@ != "assayist.source"@,
        "gauge"@ != "assayist.key"@,
        "log2"@ != "explicit"@,
        "log2"@ != "assayist.source"@,
        "log2"@ != "assayist.key"@,
        "explicit"@ != "assayist.source"@,
        "explicit"@ != "assayist.key"@,
        "assayist.source"@ != "assayist.key"@,
{
    reveal_strlit("histogram");
    assert("histogram"@.len() == 9);
    reveal_strlit("counter");
    assert("counter"@.len() == 7);
    reveal_strlit("gauge");
    assert("gauge"@.len() == 5);
    reveal_strlit("log2");
    assert("log2"@.len() == 4);
    reveal_strlit("explicit");
    assert("explicit"@.len() == 8);
    reveal_strlit("assayist.source");
    assert("assayist.source"@.len() == 15);
    reveal_strlit("assayist.key");
    assert("assayist.key"@.len() == 12);
}

/// A whole number that was written as text is read back.
proof fn lemma_count(n: u64)
    ensures
        back::count(Json::Str(text::decimal(n as nat))) == n,
{
    text::law_unsigned_reads_decimal(n as nat, u64::MAX as nat);
}

/// The number that a key holds, as the export writes it and the import reads it.
proof fn lemma_count_text(j: Json, k: Seq<char>)
    ensures
        back::count(otlp::count_text(j, k)) == (match json::u64_field(j, k) {
            Some(n) => n,
            None => 0,
        }),
{
    let n: u64 = match json::u64_field(j, k) {
        Some(n) => n,
        None => 0,
    };
    lemma_count(n);
}

/// The only item of a list is what is gathered from it.
proof fn lemma_gather_one(j: Json, k: Seq<char>)
    ensures
        back::gathered(seq![j], k) == json::items(j, k),
{
    reveal_with_fuel(back::gathered, 2);
    assert(seq![j].drop_last() =~= Seq::empty());
    assert(Seq::<Json>::empty() + json::items(j, k) =~= json::items(j, k));
}

/// The spans and metrics that an exported document holds are those that were
/// put into it.
proof fn lemma_nested(r: Record, ts: u64)
    ensures
        back::raw_spans(otlp::exported(r, ts)) == otlp::exported_spans(r.run_id, r.spans),
        back::raw_metrics(otlp::exported(r, ts)) == otlp::series_metrics_of(r.series, ts)
            + otlp::probe_metrics_of(r.self_metrics, ts),
        back::resource_attrs(otlp::exported(r, ts)) == Json::Arr(otlp::resource_attributes_of(r)),
{
    broadcast use json::law_lookup_put;

    lemma_document_keys();
    let doc = otlp::exported(r, ts);
    let a = json::items(doc, "resourceSpans"@);
    let m = json::items(doc, "resourceMetrics"@);
    assert(Json::Arr(a) == otlp::resource_spans(r));
    assert(Json::Arr(m) == otlp::resource_metrics(r, ts));
    let a0 = a[0];
    let m0 = m[0];
    assert(a =~= seq![a0]);
    assert(m =~= seq![m0]);
    lemma_gather_one(a0, "scopeSpans"@);
    lemma_gather_one(m0, "scopeMetrics"@);
    let b = json::items(a0, "scopeSpans"@);
    let n = json::items(m0, "scopeMetrics"@);
    assert(b.len() == 1 && n.len() == 1);
    assert(b =~= seq![b[0]]);
    assert(n =~= seq![n[0]]);
    lemma_gather_one(b[0], "spans"@);
    lemma_gather_one(n[0], "metrics"@);
    assert(json::items(b[0], "spans"@) == otlp::exported_spans(r.run_id, r.spans));
}

/// The attribute at position `i` is found where none before it has its key.
proof fn lemma_attr_at(a: Seq<Json>, key: Seq<char>, from: nat, i: nat)
    requires
        from <= i < a.len(),
        forall|j: int| from <= j < i ==> json::member(#[trigger] a[j], "key"@) != Json::Str(key),
        json::member(a[i as int], "key"@) == Json::Str(key),
    ensures
        back::attr(a, key, from) == Some(json::member(a[i as int], "value"@)),
    decreases i - from,
{
    if from < i {
        assert(json::member(a[from as int], "key"@) != Json::Str(key));
        lemma_attr_at(a, key, from + 1, i);
    }
}

proof fn lemma_attribute(k: Seq<char>, any: Json)
    ensures
        json::member(otlp::attribute(k, any), "key"@) == Json::Str(k),
        json::member(otlp::attribute(k, any), "value"@) == any,
{
    broadcast use json::law_lookup_put;

    lemma_attribute_keys();
}

proof fn lemma_text_value(v: Seq<char>)
    ensures
        json::str_field(json::fields().text("stringValue"@, v).json(), "stringValue"@) == Some(v),
{
    broadcast use json::law_lookup_put;

}

proof fn lemma_int_value(n: int)
    ensures
        json::member(
            json::fields().text("intValue"@, text::decimal_int(n)).json(),
            "intValue"@,
        ) == Json::Str(text::decimal_int(n)),
{
    broadcast use json::law_lookup_put;

}

proof fn lemma_bool_value(b: bool)
    ensures
        json::member(json::fields().with("boolValue"@, Json::Bool(b)).json(), "boolValue"@)
            == Json::Bool(b),
{
    broadcast use json::law_lookup_put;

}

/// The keys of the resource attributes, in order.
spec fn resource_keys() -> Seq<Seq<char>> {
    seq![
        "host.name"@,
        "os.version"@,
        "os.description"@,
        "host.cpu.model.name"@,
        "assayist.host.cpu_count_logical"@,
        "assayist.host.cpu_count_physical"@,
        "assayist.host.smt_enabled"@,
        "assayist.host.cpu_governor"@,
        "assayist.host.thp"@,
        "assayist.host.memory_bytes"@,
        "assayist.host.kvm"@,
        "assayist.run.tenancy"@,
        "assayist.target_adapter"@,
        "assayist.target_adapter_version"@,
        "assayist.workload_driver"@,
        "assayist.workload_driver_version"@,
        "assayist.sut_git_sha"@,
        "assayist.params_hash"@,
        "assayist.benchmark_def_sha"@,
    ]
}

/// The attribute at each position is found by its key.
proof fn lemma_resource_attr(r: Record, i: int, any: Json)
    requires
        0 <= i < 19,
        otlp::resource_attributes_of(r)[i] == otlp::attribute(resource_keys()[i], any),
    ensures
        back::attr(otlp::resource_attributes_of(r), resource_keys()[i], 0) == Some(any),
{
    let a = otlp::resource_attributes_of(r);
    let ks = resource_keys();
    lemma_resource_keys();
    assert forall|j: int| 0 <= j < i implies json::member(#[trigger] a[j], "key"@) != Json::Str(
        ks[i],
    ) by {
        lemma_resource_key(r, j);
    }
    lemma_attribute(ks[i], any);
    lemma_attr_at(a, ks[i], 0, i as nat);
}

proof fn lemma_resource_key(r: Record, j: int)
    requires
        0 <= j < 19,
    ensures
        json::member(otlp::resource_attributes_of(r)[j], "key"@) == Json::Str(resource_keys()[j]),
{
    let a = otlp::resource_attributes_of(r)[j];
    let k = resource_keys()[j];
    lemma_attribute(k, json::member(a, "value"@));
    let any = choose|any: Json| a == otlp::attribute(k, any);
    assert(exists|any: Json| a == #[trigger] otlp::attribute(k, any)) by {
        let f = r.fingerprint;
        let id = r.identity;
        let t = |v: Seq<char>| json::fields().text("stringValue"@, v).json();
        assert(a == otlp::attribute(k, t(f.hostname)) || a == otlp::attribute(
            k,
            t(f.kernel_version),
        ) || a == otlp::attribute(k, t(f.os_release)) || a == otlp::attribute(k, t(f.cpu_model))
            || a == otlp::attribute(k, t(f.cpu_governor)) || a == otlp::attribute(
            k,
            t(f.thp_setting),
        ) || a == otlp::attribute(k, t(f.tenancy)) || a == otlp::attribute(k, t(id.target_adapter))
            || a == otlp::attribute(k, t(id.target_adapter_version)) || a == otlp::attribute(
            k,
            t(id.workload_driver),
        ) || a == otlp::attribute(k, t(id.workload_driver_version)) || a == otlp::attribute(
            k,
            t(id.sut_git_sha),
        ) || a == otlp::attribute(k, t(id.params_hash)) || a == otlp::attribute(
            k,
            t(id.benchmark_def_sha),
        ) || j == 4 || j == 5 || j == 6 || j == 9 || j == 10);
        if j == 4 {
            assert(a == otlp::int_attribute(k, f.cpu_count_logical as int));
        } else if j == 5 {
            assert(a == otlp::int_attribute(k, f.cpu_count_physical as int));
        } else if j == 6 {
            assert(a == otlp::bool_attribute(k, f.smt_enabled));
        } else if j == 9 {
            assert(a == otlp::int_attribute(k, (f.total_memory_bytes as i64) as int));
        } else if j == 10 {
            assert(a == otlp::bool_attribute(k, f.kvm_present));
        }
    }
    lemma_attribute(k, any);
}

proof fn lemma_resource_text(r: Record, i: int, v: Seq<char>)
    requires
        0 <= i < 19,
        otlp::resource_attributes_of(r)[i] == otlp::text_attribute(resource_keys()[i], v),
    ensures
        back::attr_text(Json::Arr(otlp::resource_attributes_of(r)), resource_keys()[i]) == Some(v),
{
    lemma_resource_attr(r, i, json::fields().text("stringValue"@, v).json());
    lemma_text_value(v);
}

proof fn lemma_resource_int(r: Record, i: int, v: i64)
    requires
        0 <= i < 19,
        otlp::resource_attributes_of(r)[i] == otlp::int_attribute(resource_keys()[i], v as int),
    ensures
        back::attr_number(Json::Arr(otlp::resource_attributes_of(r)), resource_keys()[i]) == Some(v),
{
    lemma_resource_attr(
        r,
        i,
        json::fields().text("intValue"@, text::decimal_int(v as int)).json(),
    );
    lemma_int_value(v as int);
    text::law_signed_reads_decimal(v as int);
}

proof fn lemma_resource_bool(r: Record, i: int, v: bool)
    requires
        0 <= i < 19,
        otlp::resource_attributes_of(r)[i] == otlp::bool_attribute(resource_keys()[i], v),
    ensures
        back::attr_flag(Json::Arr(otlp::resource_attributes_of(r)), resource_keys()[i]) == Some(v),
{
    lemma_resource_attr(r, i, json::fields().with("boolValue"@, Json::Bool(v)).json());
    lemma_bool_value(v);
}

/// An imported run is stamped as such, is valid, never reproducible, and has no
/// cost records.
pub proof fn law_imported_is_valid(doc: Json)
    ensures
        back::imported(doc).identity.source == "imported"@,
        back::imported(doc).grade == Grade::Valid,
        back::imported(doc).self_metrics.len() == 0,
        contract::graded("imported"@, back::imported(doc).fingerprint, 0, false) == Grade::Valid,
{
}

/// The core of the fingerprint comes back from an export.
pub proof fn law_fingerprint_round_trip(r: Record, ts: u64)
    ensures
        ({
            let f = r.fingerprint;
            let g = back::imported(otlp::exported(r, ts)).fingerprint;
            &&& g.hostname == f.hostname
            &&& g.kernel_version == f.kernel_version
            &&& g.os_release == f.os_release
            &&& g.cpu_model == f.cpu_model
            &&& g.cpu_count_logical == f.cpu_count_logical
            &&& g.cpu_count_physical == f.cpu_count_physical
            &&& g.smt_enabled == f.smt_enabled
            &&& g.cpu_governor == f.cpu_governor
            &&& g.thp_setting == f.thp_setting
            &&& g.total_memory_bytes == f.total_memory_bytes
            &&& g.kvm_present == f.kvm_present
            &&& g.tenancy == f.tenancy
        }),
{
    let f = r.fingerprint;
    lemma_nested(r, ts);
    lemma_resource_text(r, 0, f.hostname);
    lemma_resource_text(r, 1, f.kernel_version);
    lemma_resource_text(r, 2, f.os_release);
    lemma_resource_text(r, 3, f.cpu_model);
    lemma_resource_int(r, 4, f.cpu_count_logical as i64);
    lemma_resource_int(r, 5, f.cpu_count_physical as i64);
    lemma_resource_bool(r, 6, f.smt_enabled);
    lemma_resource_text(r, 7, f.cpu_governor);
    lemma_resource_text(r, 8, f.thp_setting);
    lemma_resource_int(r, 9, f.total_memory_bytes as i64);
    lemma_resource_bool(r, 10, f.kvm_present);
    lemma_resource_text(r, 11, f.tenancy);
    let m = f.total_memory_bytes;
    assert((m as i64) as u64 == m) by (bit_vector);
    let a = f.cpu_count_logical;
    let b = f.cpu_count_physical;
    assert((a as i64) as u32 == a) by (bit_vector);
    assert((b as i64) as u32 == b) by (bit_vector);
}

/// The identity comes back from an export, but for the parameters and the
/// source.
pub proof fn law_identity_round_trip(r: Record, ts: u64)
    ensures
        ({
            let f = r.identity;
            let g = back::imported(otlp::exported(r, ts)).identity;
            &&& g.target_adapter == f.target_adapter
            &&& g.target_adapter_version == f.target_adapter_version
            &&& g.workload_driver == f.workload_driver
            &&& g.workload_driver_version == f.workload_driver_version
            &&& g.sut_git_sha == f.sut_git_sha
            &&& g.params_hash == f.params_hash
            &&& g.benchmark_def_sha == f.benchmark_def_sha
        }),
{
    let f = r.identity;
    lemma_nested(r, ts);
    lemma_resource_text(r, 12, f.target_adapter);
    lemma_resource_text(r, 13, f.target_adapter_version);
    lemma_resource_text(r, 14, f.workload_driver);
    lemma_resource_text(r, 15, f.workload_driver_version);
    lemma_resource_text(r, 16, f.sut_git_sha);
    lemma_resource_text(r, 17, f.params_hash);
    lemma_resource_text(r, 18, f.benchmark_def_sha);
}

// ---------------------------------------------------------------------------
// Spans
// ---------------------------------------------------------------------------

/// The id that the span at position `i` is exported under.
pub open spec fn id_at(r: Record, i: int) -> Seq<char> {
    otlp::span_id_of(r.run_id, otlp::span_name(r.spans[i]), i as nat)
}

/// Whether spans that share an id share a name: no two digests collide.
pub open spec fn ids_tell_names_apart(r: Record) -> bool {
    forall|i: int, j: int|
        0 <= i < r.spans.len() && 0 <= j < r.spans.len() && #[trigger] id_at(r, i)
            == #[trigger] id_at(r, j) ==> otlp::span_name(r.spans[i]) == otlp::span_name(
            r.spans[j],
        )
}

proof fn lemma_exported_span(r: Record, i: int)
    requires
        0 <= i < r.spans.len(),
    ensures
        ({
            let s = r.spans[i];
            let x = otlp::exported_span(r.run_id, r.spans, i);
            &&& json::str_field(x, "traceId"@) == Some(r.run_id)
            &&& json::str_field(x, "spanId"@) == Some(id_at(r, i))
            &&& json::member(x, "name"@) == Json::Str(otlp::span_name(s))
            &&& json::field(x, "parentSpanId"@) == otlp::parent_id(r.run_id, r.spans, s)
            &&& json::member(x, "startTimeUnixNano"@) == otlp::count_text(s, "start_unix_nano"@)
            &&& json::member(x, "endTimeUnixNano"@) == otlp::count_text(s, "end_unix_nano"@)
            &&& json::member(x, "attributes"@) == Json::Arr(
                otlp::attributes_of(json::member(s, "attributes"@)),
            )
        }),
{
    broadcast use json::law_lookup_put;

    lemma_span_keys();
}

proof fn lemma_first_named(spans: Seq<Json>, name: Seq<char>, from: nat)
    ensures
        otlp::first_named(spans, name, from) matches Some(i) ==> i < spans.len()
            && otlp::span_name(spans[i as int]) == name,
    decreases spans.len() - from,
{
    if from < spans.len() && otlp::span_name(spans[from as int]) != name {
        lemma_first_named(spans, name, from + 1);
    }
}

proof fn lemma_name_of(r: Record, n: int, k: int)
    requires
        ids_tell_names_apart(r),
        0 <= k < n <= r.spans.len(),
    ensures
        back::name_of(otlp::exported_spans(r.run_id, r.spans).take(n), id_at(r, k)) == Some(
            otlp::span_name(r.spans[k]),
        ),
    decreases n,
{
    let all = otlp::exported_spans(r.run_id, r.spans);
    let t = all.take(n);
    assert(t.drop_last() =~= all.take(n - 1));
    assert(t.last() == otlp::exported_span(r.run_id, r.spans, n - 1));
    lemma_exported_span(r, n - 1);
    if id_at(r, n - 1) != id_at(r, k) {
        lemma_name_of(r, n - 1, k);
    }
}

/// The run id comes back from an export of a run that has a span.
pub proof fn law_run_id_round_trip(r: Record, ts: u64)
    requires
        r.spans.len() > 0,
    ensures
        back::imported(otlp::exported(r, ts)).run_id == r.run_id,
{
    lemma_nested(r, ts);
    lemma_exported_span(r, 0);
}

/// The spans come back from an export: as many, in order, with name, times and
/// parent. A time that is no whole number comes back as zero; a parent that
/// names no span is dropped.
pub proof fn law_spans_round_trip(r: Record, ts: u64, i: int)
    requires
        ids_tell_names_apart(r),
        0 <= i < r.spans.len(),
    ensures
        ({
            let s = r.spans[i];
            let out = back::imported(otlp::exported(r, ts)).spans;
            &&& out.len() == r.spans.len()
            &&& json::str_field(out[i], "name"@) == Some(otlp::span_name(s))
            &&& json::u64_field(out[i], "start_unix_nano"@) == Some(whole_or_zero(s, "start_unix_nano"@))
            &&& json::u64_field(out[i], "end_unix_nano"@) == Some(whole_or_zero(s, "end_unix_nano"@))
            &&& json::str_field(out[i], "parent"@) == (match json::str_field(s, "parent"@) {
                Some(p) => if otlp::first_named(r.spans, p, 0) is Some {
                    Some(p)
                } else {
                    None
                },
                None => None,
            })
        }),
{
    broadcast use json::law_lookup_put;

    let s = r.spans[i];
    let all = otlp::exported_spans(r.run_id, r.spans);
    lemma_nested(r, ts);
    lemma_exported_span(r, i);
    lemma_count_text(s, "start_unix_nano"@);
    lemma_count_text(s, "end_unix_nano"@);
    lemma_recorded_span_keys();
    match json::str_field(s, "parent"@) {
        Some(p) => {
            lemma_first_named(r.spans, p, 0);
            match otlp::first_named(r.spans, p, 0) {
                Some(k) => {
                    lemma_name_of(r, r.spans.len() as int, k as int);
                    assert(all.take(r.spans.len() as int) =~= all);
                },
                None => {},
            }
        },
        None => {},
    }
}

/// The whole number that a key holds, or zero.
pub open spec fn whole_or_zero(j: Json, k: Seq<char>) -> u64 {
    match json::u64_field(j, k) {
        Some(n) => n,
        None => 0,
    }
}

/// What comes back of an attribute's value: text, truth values, doubles and
/// whole numbers of 64 signed bits as they were, a larger whole number as null,
/// anything else as its text.
pub open spec fn flattened(v: Json) -> Json {
    match v {
        Json::Int(n) => if i64::MIN <= n <= i64::MAX {
            v
        } else {
            Json::Null
        },
        Json::Str(_) | Json::Bool(_) | Json::Float(_) => v,
        _ => Json::Str(json::text_of(v)),
    }
}

proof fn lemma_plain_value(k: Seq<char>, v: Json)
    ensures
        json::str_field(otlp::any_attribute(k, v), "key"@) == Some(k),
        back::plain_value(json::member(otlp::any_attribute(k, v), "value"@)) == flattened(v),
{
    broadcast use json::law_lookup_put;

    lemma_attribute_keys();
    lemma_value_keys();
    match v {
        Json::Int(n) => {
            if i64::MIN <= n <= i64::MAX {
                text::law_signed_reads_decimal(n);
            } else {
                lemma_signed_rejects(n);
            }
        },
        _ => {},
    }
}

proof fn lemma_signed_rejects(n: int)
    requires
        n < i64::MIN || n > i64::MAX,
    ensures
        text::signed(text::decimal_int(n)) is None,
{
    reveal_strlit("-");
    if n < 0 {
        text::lemma_decimal((-n) as nat);
        assert(text::decimal_int(n).skip(1) =~= text::decimal((-n) as nat));
    } else {
        text::lemma_decimal(n as nat);
    }
}

/// The attributes of a span come back from an export, each with what comes back
/// of its value.
pub proof fn law_attributes_round_trip(e: Seq<(Seq<char>, Json)>)
    requires
        json::sorted(json::keys(e)),
    ensures
        back::unlisted(otlp::attributes_of(Json::Obj(e))) == e.map_values(
            |m: (Seq<char>, Json)| (m.0, flattened(m.1)),
        ),
    decreases e.len(),
{
    let a = otlp::attributes_of(Json::Obj(e));
    if e.len() == 0 {
        assert(a =~= Seq::empty());
        assert(e.map_values(|m: (Seq<char>, Json)| (m.0, flattened(m.1))) =~= json::none());
    } else {
        let d = e.drop_last();
        let ks = json::keys(e);
        assert forall|i: int, j: int| 0 <= i < j < json::keys(d).len() implies json::before(
            #[trigger] json::keys(d)[i],
            #[trigger] json::keys(d)[j],
        ) by {
            assert(json::keys(d)[i] == ks[i] && json::keys(d)[j] == ks[j]);
        }
        law_attributes_round_trip(d);
        assert(a.drop_last() =~= otlp::attributes_of(Json::Obj(d)));
        let (k, v) = e.last();
        lemma_plain_value(k, v);
        let f = d.map_values(|m: (Seq<char>, Json)| (m.0, flattened(m.1)));
        assert forall|j: int| 0 <= j < f.len() implies #[trigger] f[j].0 != k && !json::before(
            k,
            f[j].0,
        ) by {
            assert(ks[j] == f[j].0 && ks[e.len() - 1] == k);
            json::lemma_before_irreflexive(k);
            if json::before(k, f[j].0) {
                json::lemma_before_transitive(k, f[j].0, k);
            }
        }
        json::lemma_put_at(f, k, flattened(v), f.len() as int);
        assert(json::put(f, k, flattened(v)) =~= e.map_values(
            |m: (Seq<char>, Json)| (m.0, flattened(m.1)),
        ));
    }
}

// ---------------------------------------------------------------------------
// Series
// ---------------------------------------------------------------------------

/// What comes back of histogram buckets: the whole numbers of 64 signed bits,
/// those below zero as zero.
pub open spec fn kept_buckets(a: Seq<Json>) -> Seq<Json>
    decreases a.len(),
{
    if a.len() == 0 {
        Seq::empty()
    } else {
        match json::i64_of(a.last()) {
            Some(n) => kept_buckets(a.drop_last()).push(
                Json::Int(
                    if n < 0 {
                        0
                    } else {
                        n as int
                    },
                ),
            ),
            None => kept_buckets(a.drop_last()),
        }
    }
}

/// What comes back of a series' data.
pub open spec fn data_back(kind: Seq<char>, d: Json) -> Json {
    if kind == "counter"@ {
        json::fields().with("value"@, Json::Int(whole_or_zero(d, "value"@) as int)).with(
            "start_unix_nano"@,
            Json::Int(whole_or_zero(d, "start_unix_nano"@) as int),
        ).json()
    } else if kind == "gauge"@ {
        json::fields().with("value"@, otlp::double_or_zero(d, "value"@)).with(
            "time_unix_nano"@,
            Json::Int(whole_or_zero(d, "time_unix_nano"@) as int),
        ).json()
    } else if otlp::layout_of(d) == "log2"@ {
        json::fields().text("layout"@, "log2"@).with(
            "buckets"@,
            Json::Arr(kept_buckets(json::items(d, "buckets"@))),
        ).with("count"@, Json::Int(whole_or_zero(d, "count"@) as int)).maybe(
            "sum"@,
            otlp::double_at(d, "sum"@),
        ).json()
    } else {
        json::fields().text("layout"@, "explicit"@).with(
            "buckets"@,
            Json::Arr(kept_buckets(json::items(d, "buckets"@))),
        ).with(
            "explicit_bounds"@,
            Json::Arr(otlp::doubles(json::items(d, "explicit_bounds"@))),
        ).with("count"@, Json::Int(whole_or_zero(d, "count"@) as int)).maybe(
            "sum"@,
            otlp::double_at(d, "sum"@),
        ).json()
    }
}

/// What comes back of a series: name, unit, kind, source, key and data.
pub open spec fn series_back(s: Json) -> Json {
    let kind = reduce::text_or_empty(s, "kind"@);
    json::fields().text("name"@, reduce::text_or_empty(s, "name"@)).text(
        "unit"@,
        reduce::text_or_empty(s, "unit"@),
    ).text("kind"@, kind).maybe("source"@, back::as_json(json::str_field(s, "source"@))).maybe(
        "key"@,
        back::as_json(json::str_field(s, "key"@)),
    ).with("data"@, data_back(kind, json::member(s, "data"@))).json()
}

proof fn lemma_buckets(a: Seq<Json>)
    ensures
        back::counts(otlp::bucket_texts(a)) == Json::Arr(kept_buckets(a)),
    decreases a.len(),
{
    let c = |j: Json| Json::Int(back::count(j) as int);
    if a.len() == 0 {
        assert(otlp::bucket_texts(a).map_values(c) =~= Seq::empty());
    } else {
        lemma_buckets(a.drop_last());
        let b = otlp::bucket_texts(a.drop_last());
        match json::i64_of(a.last()) {
            Some(n) => {
                let t = Json::Str(text::decimal_int(n as int));
                if n >= 0 {
                    lemma_count(n as u64);
                } else {
                    reveal_strlit("-");
                    assert(text::decimal_int(n as int)[0] == '-');
                    assert(!text::is_digit(text::decimal_int(n as int)[0]));
                    assert(back::count(t) == 0);
                }
                assert(b.push(t).map_values(c) =~= b.map_values(c).push(c(t)));
                assert(back::counts(b)->Arr_0 =~= kept_buckets(a.drop_last()));
                assert(back::counts(otlp::bucket_texts(a))->Arr_0 =~= kept_buckets(a));
            },
            None => {},
        }
    }
}

proof fn lemma_point_attributes(s: Json)
    ensures
        back::attr_text(Json::Arr(otlp::point_attributes(s)), "assayist.source"@)
            == json::str_field(s, "source"@),
        back::attr_text(Json::Arr(otlp::point_attributes(s)), "assayist.key"@) == json::str_field(
            s,
            "key"@,
        ),
{
    lemma_kinds();
    reveal_with_fuel(back::attr, 3);
    match json::str_field(s, "source"@) {
        Some(x) => {
            lemma_attribute("assayist.source"@, json::fields().text("stringValue"@, x).json());
            lemma_text_value(x);
        },
        None => {},
    }
    match json::str_field(s, "key"@) {
        Some(x) => {
            lemma_attribute("assayist.key"@, json::fields().text("stringValue"@, x).json());
            lemma_text_value(x);
        },
        None => {},
    }
}

/// Where a metric was made of a body under a key, the import finds that body.
proof fn lemma_metric_parts(name: Seq<char>, unit: Seq<char>, k: Seq<char>, body: Json)
    requires
        k == "exponentialHistogram"@ || k == "histogram"@ || k == "sum"@ || k == "gauge"@,
    ensures
        ({
            let m = json::fields().text("name"@, name).text("unit"@, unit).with(k, body).json();
            &&& json::str_field(m, "name"@) == Some(name)
            &&& json::str_field(m, "unit"@) == Some(unit)
            &&& json::member(m, k) == body
            &&& json::field(m, "exponentialHistogram"@) is Some <==> k == "exponentialHistogram"@
            &&& json::field(m, "histogram"@) is Some <==> k == "histogram"@
            &&& json::field(m, "sum"@) is Some <==> k == "sum"@
        }),
{
    broadcast use json::law_lookup_put;

    lemma_metric_keys();
}

proof fn lemma_first_point(p: Json)
    ensures
        back::first_point(otlp::cumulative(p).json()) == Some(p),
        back::first_point(otlp::sum_body(p)) == Some(p),
        back::first_point(otlp::gauge_body(p)) == Some(p),
{
    broadcast use json::law_lookup_put;

    lemma_point_keys();
}

proof fn lemma_log2_point(d: Json, attrs: Seq<Json>, ts: u64)
    ensures
        ({
            let p = otlp::log2_point(d, attrs, ts);
            &&& json::member(p, "attributes"@) == Json::Arr(attrs)
            &&& json::member(p, "count"@) == otlp::count_text(d, "count"@)
            &&& json::field(p, "sum"@) == otlp::double_at(d, "sum"@)
            &&& json::member(json::member(p, "positive"@), "bucketCounts"@) == Json::Arr(
                otlp::bucket_texts(json::items(d, "buckets"@)),
            )
        }),
{
    broadcast use json::law_lookup_put;

    lemma_point_keys();
}

proof fn lemma_explicit_point(d: Json, attrs: Seq<Json>, ts: u64)
    ensures
        ({
            let p = otlp::explicit_point(d, attrs, ts);
            &&& json::member(p, "attributes"@) == Json::Arr(attrs)
            &&& json::member(p, "count"@) == otlp::count_text(d, "count"@)
            &&& json::field(p, "sum"@) == otlp::double_at(d, "sum"@)
            &&& json::field(p, "explicitBounds"@) == Some(
                Json::Arr(otlp::doubles(json::items(d, "explicit_bounds"@))),
            )
            &&& json::member(p, "bucketCounts"@) == Json::Arr(
                otlp::bucket_texts(json::items(d, "buckets"@)),
            )
        }),
{
    broadcast use json::law_lookup_put;

    lemma_point_keys();
}

proof fn lemma_counter_point(d: Json, attrs: Seq<Json>)
    ensures
        ({
            let p = otlp::counter_point(d, attrs);
            &&& json::member(p, "attributes"@) == Json::Arr(attrs)
            &&& json::member(p, "asInt"@) == otlp::count_text(d, "value"@)
            &&& json::member(p, "timeUnixNano"@) == otlp::count_text(d, "start_unix_nano"@)
        }),
{
    broadcast use json::law_lookup_put;

    lemma_point_keys();
}

proof fn lemma_gauge_point(d: Json, attrs: Seq<Json>)
    ensures
        ({
            let p = otlp::gauge_point(d, attrs);
            &&& json::member(p, "attributes"@) == Json::Arr(attrs)
            &&& json::member(p, "asDouble"@) == otlp::double_or_zero(d, "value"@)
            &&& json::member(p, "timeUnixNano"@) == otlp::count_text(d, "time_unix_nano"@)
        }),
{
    broadcast use json::law_lookup_put;

    lemma_point_keys();
}

/// A series that is exported comes back.
pub proof fn law_series_round_trip(s: Json, ts: u64)
    requires
        otlp::metric_of(s, ts) is Some,
    ensures
        back::series_of(otlp::metric_of(s, ts)->0) == Some(series_back(s)),
        reduce::text_or_empty(otlp::metric_of(s, ts)->0, "name"@) == reduce::text_or_empty(
            s,
            "name"@,
        ),
{
    let name = json::str_field(s, "name"@)->0;
    let kind = json::str_field(s, "kind"@)->0;
    let d = json::field(s, "data"@)->0;
    let attrs = otlp::point_attributes(s);
    let unit = reduce::text_or_empty(s, "unit"@);
    let (k, body) = otlp::body_of(kind, d, attrs, ts)->0;
    lemma_kinds();
    lemma_metric_keys();
    lemma_point_attributes(s);
    lemma_metric_parts(name, unit, k, body);
    lemma_count_text(d, "count"@);
    lemma_count_text(d, "value"@);
    lemma_count_text(d, "start_unix_nano"@);
    lemma_count_text(d, "time_unix_nano"@);
    lemma_buckets(json::items(d, "buckets"@));
    if kind == "histogram"@ {
        if otlp::layout_of(d) == "log2"@ {
            let p = otlp::log2_point(d, attrs, ts);
            lemma_first_point(p);
            lemma_log2_point(d, attrs, ts);
            assert(otlp::double_at(p, "sum"@) == otlp::double_at(d, "sum"@));
            assert(back::log2_data(p) == data_back(kind, d));
        } else {
            let p = otlp::explicit_point(d, attrs, ts);
            lemma_first_point(p);
            lemma_explicit_point(d, attrs, ts);
            assert(otlp::double_at(p, "sum"@) == otlp::double_at(d, "sum"@));
            assert(back::explicit_data(p) == data_back(kind, d));
        }
    } else if kind == "counter"@ {
        let p = otlp::counter_point(d, attrs);
        lemma_first_point(p);
        lemma_counter_point(d, attrs);
        assert(back::counter_data(p) == data_back(kind, d));
    } else {
        let p = otlp::gauge_point(d, attrs);
        lemma_first_point(p);
        lemma_gauge_point(d, attrs);
        assert(otlp::double_or_zero(p, "asDouble"@) == otlp::double_or_zero(d, "value"@));
        assert(back::gauge_data(p) == data_back(kind, d));
    }
}

/// What comes back of the first series: each that has a name, a known kind and
/// data, unless its name is that of a probe cost.
pub open spec fn all_back(a: Seq<Json>) -> Seq<Json>
    decreases a.len(),
{
    if a.len() == 0 {
        Seq::empty()
    } else if otlp::metric_of(a.last(), 0) is Some && !text::has_prefix(
        reduce::text_or_empty(a.last(), "name"@),
        "assayist.probe."@,
    ) {
        all_back(a.drop_last()).push(series_back(a.last()))
    } else {
        all_back(a.drop_last())
    }
}

proof fn lemma_series_back(a: Seq<Json>, ts: u64)
    ensures
        back::imported_series(otlp::series_metrics_of(a, ts)) == all_back(a),
    decreases a.len(),
{
    if a.len() > 0 {
        let d = a.drop_last();
        lemma_series_back(d, ts);
        match otlp::metric_of(a.last(), ts) {
            Some(m) => {
                law_series_round_trip(a.last(), ts);
                let b = otlp::series_metrics_of(d, ts);
                assert(b.push(m).drop_last() =~= b);
            },
            None => {},
        }
    }
}

proof fn lemma_probes_dropped(a: Seq<Json>, costs: Seq<Json>, ts: u64)
    ensures
        back::imported_series(a + otlp::probe_metrics_of(costs, ts)) == back::imported_series(a),
    decreases costs.len(),
{
    if costs.len() == 0 {
        assert(a + otlp::probe_metrics_of(costs, ts) =~= a);
    } else {
        broadcast use json::law_lookup_put;

        lemma_probes_dropped(a, costs.drop_last(), ts);
        let b = a + otlp::probe_metrics_of(costs.drop_last(), ts);
        let p = otlp::probe_pair(costs.last(), ts);
        let all = a + otlp::probe_metrics_of(costs, ts);
        assert(all =~= b.push(p[0]).push(p[1]));
        assert(all.drop_last() =~= b.push(p[0]));
        assert(b.push(p[0]).drop_last() =~= b);
        lemma_metric_keys();
        reveal_strlit("assayist.probe.");
        reveal_strlit("assayist.probe.steady_cpu_fraction");
        reveal_strlit("assayist.probe.run_time_ns");
        assert("assayist.probe.steady_cpu_fraction"@.take(15) =~= "assayist.probe."@);
        assert("assayist.probe.run_time_ns"@.take(15) =~= "assayist.probe."@);
        assert(reduce::text_or_empty(p[0], "name"@) == "assayist.probe.steady_cpu_fraction"@);
        assert(reduce::text_or_empty(p[1], "name"@) == "assayist.probe.run_time_ns"@);
        assert(text::has_prefix(reduce::text_or_empty(p[0], "name"@), "assayist.probe."@));
        assert(text::has_prefix(reduce::text_or_empty(p[1], "name"@), "assayist.probe."@));
        assert(b.push(p[0]).last() == p[0] && all.last() == p[1]);
        assert(back::imported_series(b.push(p[0])) == back::imported_series(b));
        assert(back::imported_series(all) == back::imported_series(b.push(p[0])));
    }
}

/// The series come back from an export, and probe costs are not among them.
pub proof fn law_all_series_round_trip(r: Record, ts: u64)
    ensures
        back::imported(otlp::exported(r, ts)).series == all_back(r.series),
{
    lemma_nested(r, ts);
    lemma_series_back(r.series, ts);
    lemma_probes_dropped(otlp::series_metrics_of(r.series, ts), r.self_metrics, ts);
}

} // verus!
