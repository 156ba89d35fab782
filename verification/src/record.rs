//! The text form of a log record: one line `"<face-id>,<duration>\n"` per
//! completed dwell entry, with both numbers written in decimal.

use vstd::prelude::*;

use crate::log_store::LogStore;
use crate::log_store::StorageError;
use crate::log_store::appended;
use crate::log_store::stored_or_empty;
use crate::session::Entry;

verus! {

/// The decimal digit characters of `n`, most significant first, with no
/// leading zeros (a single `'0'` for zero).
pub open spec fn dec_digits(n: nat) -> Seq<u8>
    decreases n,
{
    if n < 10 {
        seq![(48 + n) as u8]
    } else {
        dec_digits(n / 10).push((48 + n % 10) as u8)
    }
}

/// The log line for a completed dwell: the face label, a comma, the duration,
/// and a newline.
pub open spec fn entry_line(side: u8, duration: u64) -> Seq<u8> {
    dec_digits(side as nat) + seq![44u8] + dec_digits(duration as nat) + seq![10u8]
}

/// Append the decimal digits of `n` to `out`, most significant first.
fn push_decimal(out: &mut Vec<u8>, n: u64)
    ensures
        final(out)@ == old(out)@ + dec_digits(n as nat),
    decreases n,
{
    if n >= 10 {
        proof {
            assert(n / 10 < n) by (nonlinear_arith)
                requires
                    n >= 10,
            ;
        }
        push_decimal(out, n / 10);
    }
    let d: u8 = (n % 10) as u8 + 48;
    out.push(d);
    proof {
        assert(final(out)@ =~= old(out)@ + dec_digits(n as nat));
    }
}

/// Render one completed dwell entry as its log line.
pub fn format_entry(e: &Entry) -> (r: Vec<u8>)
    ensures
        r@ == entry_line(e.side, e.duration),
{
    let mut out: Vec<u8> = Vec::new();
    push_decimal(&mut out, e.side as u64);
    out.push(44);
    push_decimal(&mut out, e.duration);
    out.push(10);
    proof {
        assert(out@ =~= entry_line(e.side, e.duration));
    }
    out
}

/// Persist one completed dwell entry: its log line lands whole at the end of
/// the named record, one write transaction per entry, so entries appended in
/// submission order read back as the exact concatenation of their lines.
pub fn append_entry(store: &mut LogStore, name: &[u8], e: &Entry) -> (r: Result<
    (),
    StorageError,
>)
    ensures
        r is Ok,
        appended(*old(store), *final(store), name@, entry_line(e.side, e.duration)),
{
    let line = format_entry(e);
    store.write(name, line.as_slice())
}

/// The log lines of `entries`, concatenated in order.
pub open spec fn concat_lines(entries: Seq<Entry>) -> Seq<u8>
    decreases entries.len(),
{
    if entries.len() == 0 {
        Seq::<u8>::empty()
    } else {
        concat_lines(entries.drop_last()) + entry_line(
            entries.last().side,
            entries.last().duration,
        )
    }
}

/// Persist a batch of completed dwell entries, one write transaction per
/// entry, in submission order: the named record grows by exactly the
/// concatenation of the entries' lines, so reading it back yields those
/// lines unchanged and in order, and no other record changes.
pub fn append_entries(store: &mut LogStore, name: &[u8], entries: &Vec<Entry>) -> (r: Result<
    (),
    StorageError,
>)
    ensures
        r is Ok,
        entries@.len() > 0 ==> final(store).contents(name@) == Some(
            stored_or_empty(*old(store), name@) + concat_lines(entries@),
        ),
        entries@.len() == 0 ==> *final(store) == *old(store),
        forall|n: Seq<u8>| n != name@ ==> final(store).contents(n) == old(store).contents(n),
{
    let ghost pre = *store;
    let m = entries.len();
    let mut k: usize = 0;
    while k < m
        invariant
            m == entries@.len(),
            k <= m,
            k == 0 ==> *store == pre,
            k > 0 ==> store.contents(name@) == Some(
                stored_or_empty(pre, name@) + concat_lines(entries@.take(k as int)),
            ),
            forall|n: Seq<u8>| n != name@ ==> store.contents(n) == pre.contents(n),
        decreases m - k,
    {
        let ghost before = *store;
        let e = entries[k];
        let _ = append_entry(store, name, &e);
        k = k + 1;
        proof {
            let line = entry_line(e.side, e.duration);
            assert(entries@.take(k as int).drop_last() =~= entries@.take(k - 1));
            assert(entries@.take(k as int).last() == entries@[k - 1]);
            if k == 1 {
                assert(Seq::<u8>::empty() + line =~= line);
                assert(stored_or_empty(pre, name@) + concat_lines(entries@.take(1)) =~= (
                stored_or_empty(pre, name@) + line));
            } else {
                assert(stored_or_empty(before, name@) == stored_or_empty(pre, name@)
                    + concat_lines(entries@.take(k - 1)));
                assert((stored_or_empty(pre, name@) + concat_lines(entries@.take(k - 1))) + line
                    =~= stored_or_empty(pre, name@) + concat_lines(entries@.take(k as int)));
            }
        }
    }
    proof {
        if m > 0 {
            assert(entries@.take(m as int) =~= entries@);
        }
    }
    Ok(())
}

} // verus!
