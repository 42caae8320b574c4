use vstd::prelude::*;

use crate::lease::LeaseMap;
use crate::lease::resolve_lease;
use crate::lease::resolve_text;
use crate::macaddr::mac_text;
use crate::macaddr::mac_format;
use crate::stats::Stat;
use crate::stats::StatTable;
use crate::stats::lookup_stat;
use crate::stats::spec_reset;
use crate::stats::spec_take;
use crate::text::dec_digits;
use crate::text::u64_to_dec;
use vstd::array::ArrayAdditionalExecFns;

verus! {

#[verifier::external_type_specification]
#[verifier::external_body]
pub struct ExBuilder(tabled::builder::Builder);

/// The rows a table builder holds, top row first.
pub uninterp spec fn builder_rows(b: tabled::builder::Builder) -> Seq<Seq<Seq<char>>>;

/// The text that tabled renders for given rows under the modern border
/// style: a function of the rows alone.
pub uninterp spec fn modern_table(rows: Seq<Seq<Seq<char>>>) -> Seq<char>;

/// Relies on tabled::builder::Builder::new: a builder holding no rows.
#[verifier::external_body]
fn builder_new() -> (b: tabled::builder::Builder)
    ensures
        builder_rows(b) == Seq::<Seq<Seq<char>>>::empty(),
{
    tabled::builder::Builder::new()
}

/// Relies on tabled::builder::Builder::push_record: appends one row at the
/// bottom; rows already held, being of the same width, are untouched.
#[verifier::external_body]
fn builder_push(b: &mut tabled::builder::Builder, row: Vec<String>)
    requires
        forall|i: int|
            0 <= i < builder_rows(*old(b)).len() ==> (#[trigger] builder_rows(*old(b))[i]).len()
                == row@.len(),
    ensures
        builder_rows(*final(b)) == builder_rows(*old(b)).push(row.deep_view()),
{
    b.push_record(row);
}

/// Relies on tabled::builder::Builder::build, Table::with under
/// settings::Style::modern, and Table's Display rendering: the rendered
/// text depends on the rows alone.
#[verifier::external_body]
fn builder_render(b: tabled::builder::Builder) -> (r: String)
    ensures
        r@ == modern_table(builder_rows(b)),
{
    let mut t = b.build();
    t.with(tabled::settings::Style::modern());
    t.to_string()
}

/// The header row of the full report table.
pub open spec fn header_row() -> Seq<Seq<char>> {
    seq!["src"@, "resolved"@, "total"@, "period"@]
}

/// One report row: the colon-hex address, its resolved name, the lifetime
/// total, and the interval count.
pub open spec fn report_row(e: (Seq<u8>, Stat), leases: Seq<(Seq<char>, Seq<char>)>) -> Seq<
    Seq<char>,
> {
    seq![
        mac_text(e.0),
        resolve_text(leases, e.0),
        dec_digits(e.1.total as int),
        dec_digits(e.1.period as int),
    ]
}

/// The report rows for a whole table, one per entry, in table order.
pub open spec fn report_rows(s: Seq<(Seq<u8>, Stat)>, leases: Seq<(Seq<char>, Seq<char>)>) -> Seq<
    Seq<Seq<char>>,
> {
    Seq::new(s.len(), |i: int| report_row(s[i], leases))
}

/// The rendered full report: the header row and one row per known address.
pub open spec fn report_text(s: Seq<(Seq<u8>, Stat)>, leases: Seq<(Seq<char>, Seq<char>)>) -> Seq<
    char,
> {
    modern_table(seq![header_row()] + report_rows(s, leases))
}

/// Renders the full report table for every known address — colon-hex
/// address, resolved name, lifetime total, interval count, under a header
/// row — and resets every interval counter in the same step.
pub fn render_report(table: &mut StatTable, leases: &LeaseMap) -> (r: String)
    ensures
        final(table)@ == spec_reset(old(table)@),
        r@ == report_text(old(table)@, leases@),
{
    let ghost s0 = table@;
    let ghost lv = leases@;
    let snap = table.snapshot_and_reset_period();
    let mut b = builder_new();
    let mut hdr: Vec<String> = Vec::new();
    hdr.push("src".to_owned());
    hdr.push("resolved".to_owned());
    hdr.push("total".to_owned());
    hdr.push("period".to_owned());
    proof {
        assert(hdr.deep_view() =~= header_row());
    }
    builder_push(&mut b, hdr);
    proof {
        assert(builder_rows(b) =~= seq![header_row()] + report_rows(s0, lv).take(0));
    }
    let mut i: usize = 0;
    while i < snap.len()
        invariant
            i <= snap@.len(),
            snap@.len() == s0.len(),
            lv == leases@,
            forall|j: int|
                0 <= j < snap@.len() ==> (#[trigger] snap@[j]).addr@ == s0[j].0 && snap@[j].total
                    == s0[j].1.total && snap@[j].period == s0[j].1.period,
            builder_rows(b) == seq![header_row()] + report_rows(s0, lv).take(i as int),
        decreases snap@.len() - i,
    {
        let e = snap[i];
        let mut row: Vec<String> = Vec::new();
        row.push(mac_format(e.addr.as_slice()));
        row.push(resolve_lease(leases, &e.addr));
        row.push(u64_to_dec(e.total));
        row.push(u64_to_dec(e.period));
        proof {
            assert(row.deep_view() =~= report_row(s0[i as int], lv));
            assert forall|j: int| 0 <= j < builder_rows(b).len() implies (#[trigger] builder_rows(
                b,
            )[j]).len() == row@.len() by {
                if j > 0 {
                    assert(builder_rows(b)[j] == report_rows(s0, lv).take(i as int)[j - 1]);
                    assert(report_rows(s0, lv)[j - 1] == report_row(s0[j - 1], lv));
                }
            }
        }
        builder_push(&mut b, row);
        proof {
            assert(builder_rows(b) =~= seq![header_row()] + report_rows(s0, lv).take(i as int + 1));
        }
        i = i + 1;
    }
    proof {
        assert(report_rows(s0, lv).take(i as int) =~= report_rows(s0, lv));
    }
    builder_render(b)
}

/// The single-address report line: the timestamp, a space, and the
/// interval count.
pub open spec fn single_report_text(ts: Seq<char>, period: u64) -> Seq<char> {
    ts + seq![' '] + dec_digits(period as int)
}

/// Renders the single-address report line for the one tracked address and
/// resets that address's interval counter, creating its entry when the
/// address was never seen.
pub fn render_single_report(table: &mut StatTable, ts: &str, addr: &[u8; 6]) -> (r: String)
    ensures
        final(table)@ == spec_take(old(table)@, addr@),
        r@ == single_report_text(
            ts@,
            match lookup_stat(old(table)@, addr@) {
                Some(st) => st.period,
                None => 0u64,
            },
        ),
{
    let p = table.take_period(addr);
    let mut s = ts.to_owned();
    s.push(' ');
    let d = u64_to_dec(p);
    s.append(d.as_str());
    proof {
        assert(s@ =~= single_report_text(ts@, p));
    }
    s
}

} // verus!
