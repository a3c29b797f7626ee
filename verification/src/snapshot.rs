//! How much of a snapshot's memory file the page cache holds.
use crate::gadget;
use crate::json::{self, Doc, Json, Num, Object};
use vstd::prelude::*;

verus! {

/// How many of the first pages are resident: the lowest bit of each byte says.
pub open spec fn resident_of(pages: Seq<u8>) -> nat
    decreases pages.len(),
{
    if pages.len() == 0 {
        0
    } else {
        resident_of(pages.drop_last()) + (if pages.last() % 2 == 1 {
            1nat
        } else {
            0nat
        })
    }
}

/// How many pages are resident, by the bytes that `mincore` writes.
pub fn resident_pages(pages: &Vec<u8>) -> (r: u64)
    ensures
        r == resident_of(pages@),
        r <= pages@.len(),
{
    let mut n: u64 = 0;
    let mut i: usize = 0;
    assert(pages@.take(0) =~= Seq::empty());
    while i < pages.len()
        invariant
            i <= pages@.len(),
            n == resident_of(pages@.take(i as int)),
            n <= i,
        decreases pages@.len() - i,
    {
        assert(pages@.take(i + 1).drop_last() =~= pages@.take(i as int));
        if pages[i] % 2 == 1 {
            n = n + 1;
        }
        i += 1;
    }
    assert(pages@.take(i as int) =~= pages@);
    n
}

/// How many pages a file takes, the last of them perhaps in part.
pub fn page_count(len: u64, page: u64) -> (r: u64)
    requires
        page > 0,
    ensures
        r * page >= len,
        r > 0 ==> (r - 1) * page < len,
{
    let whole: u64 = len / page;
    let rest: u64 = len % page;
    proof {
        vstd::arithmetic::div_mod::lemma_fundamental_div_mod(len as int, page as int);
        let w = whole as int;
        let p = page as int;
        assert(w * p == p * w) by (nonlinear_arith);
        assert((w + 1) * p == p * w + p) by (nonlinear_arith);
        assert((w - 1) * p == p * w - p) by (nonlinear_arith);
        assert(rest > 0 ==> w < u64::MAX) by (nonlinear_arith)
            requires
                p * w + rest == len,
                p >= 1,
                w >= 0,
                rest >= 0,
                len <= u64::MAX,
        ;
    }
    if rest > 0 {
        whole + 1
    } else {
        whole
    }
}

/// A gauge of the snapshot.
pub open spec fn snapshot_gauge(name: Seq<char>, value: Json) -> Json {
    gadget::series_json(
        name,
        "1"@,
        "gauge"@,
        "resident"@,
        None,
        json::fields().text("class"@, "singleton"@).json(),
        json::fields().with("value"@, value).with("time_unix_nano"@, Json::Int(0)).json(),
    )
}

fn gauge(name: &str, value: Doc) -> (r: Doc)
    ensures
        r@ == snapshot_gauge(name@, value@),
{
    gadget::series(
        name,
        "1",
        "gauge",
        "resident",
        None,
        Doc::Object(Object::new().text("class", "singleton")),
        Doc::Object(Object::new().with("value", value).with("time_unix_nano", json::uint(0))),
    )
}

/// A window in nanoseconds, as far as it can be said.
pub open spec fn window(seconds: u64) -> int {
    if seconds * 1_000_000_000 > u64::MAX {
        u64::MAX as int
    } else {
        seconds * 1_000_000_000
    }
}

/// What the gadget reports.
pub open spec fn report(
    resident: u64,
    total: u64,
    fraction: Seq<char>,
    mem: Seq<char>,
    page: i64,
    seconds: u64,
) -> Json {
    gadget::fragment_json(
        seq![
            snapshot_gauge("resident.snapshot_resident_pages"@, Json::Int(resident as int)),
            snapshot_gauge("resident.snapshot_total_pages"@, Json::Int(total as int)),
            snapshot_gauge("resident.snapshot_fraction"@, Json::Float(fraction)),
        ],
        Seq::empty(),
        json::fields().text("gadget"@, "assayist-capture-resident"@).text("mem"@, mem).with(
            "page_size"@,
            Json::Int(page as int),
        ).with("window_ns"@, Json::Int(window(seconds))).json(),
    )
}

/// What the gadget reports: the pages that are resident, all pages, and the
/// one's share of the other in decimal.
pub fn fragment(
    resident: u64,
    total: u64,
    fraction: &str,
    mem: &str,
    page: i64,
    seconds: u64,
) -> (r: Doc)
    ensures
        r@ == report(resident, total, fraction@, mem@, page, seconds),
{
    let mut series: Vec<Doc> = Vec::new();
    series.push(gauge("resident.snapshot_resident_pages", json::uint(resident)));
    series.push(gauge("resident.snapshot_total_pages", json::uint(total)));
    series.push(gauge("resident.snapshot_fraction", Doc::Num(Num::Float(fraction.to_owned()))));
    assert(json::jsons(series@) =~= seq![
        snapshot_gauge("resident.snapshot_resident_pages"@, Json::Int(resident as int)),
        snapshot_gauge("resident.snapshot_total_pages"@, Json::Int(total as int)),
        snapshot_gauge("resident.snapshot_fraction"@, Json::Float(fraction@)),
    ]);
    let window_ns: u64 = match seconds.checked_mul(1_000_000_000) {
        Some(n) => n,
        None => u64::MAX,
    };
    let meta = Object::new().text("gadget", "assayist-capture-resident").text("mem", mem).with(
        "page_size",
        json::signed(page),
    ).with("window_ns", json::uint(window_ns));
    let none: Vec<Doc> = Vec::new();
    assert(json::jsons(none@) =~= Seq::empty());
    gadget::fragment(series, none, Doc::Object(meta))
}

/// No more pages are resident than there are.
pub proof fn law_resident_within_total(pages: Seq<u8>)
    ensures
        resident_of(pages) <= pages.len(),
    decreases pages.len(),
{
    if pages.len() > 0 {
        law_resident_within_total(pages.drop_last());
    }
}

} // verus!
