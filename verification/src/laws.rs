//! Properties of the rendering, stated over every input.

use vstd::prelude::*;
use crate::numbering::numbered_line;
use crate::render::{rendered, nonblank_count, counter_after};

verus! {

/// With no numbering flag set, rendering reproduces the input lines exactly,
/// in order.
pub proof fn lemma_plain_mode_is_identity(counter: nat, lines: Seq<Seq<char>>)
    ensures
        rendered(false, false, counter, lines) =~= lines,
    decreases lines.len(),
{
    if lines.len() == 0 {
    } else {
        lemma_plain_mode_is_identity(counter + 1, lines.drop_first());
        assert(seq![lines.first()] + lines.drop_first() =~= lines);
    }
}

/// With every line numbered, rendering keeps one output line per input line,
/// and the line at position `i` carries the counter `counter + i`: the
/// counters climb by exactly one per line.
pub proof fn lemma_number_mode_numbers_every_line(counter: nat, lines: Seq<Seq<char>>)
    ensures
        rendered(true, false, counter, lines).len() == lines.len(),
        forall|i: int|
            0 <= i < lines.len() ==> #[trigger] rendered(true, false, counter, lines)[i]
                == numbered_line((counter + i) as nat, lines[i]),
    decreases lines.len(),
{
    if lines.len() == 0 {
    } else {
        lemma_number_mode_numbers_every_line(counter + 1, lines.drop_first());
        assert forall|i: int| 0 <= i < lines.len() implies #[trigger] rendered(
            true,
            false,
            counter,
            lines,
        )[i] == numbered_line((counter + i) as nat, lines[i]) by {
            if i > 0 {
                assert(rendered(true, false, counter, lines)[i] == rendered(
                    true,
                    false,
                    counter + 1,
                    lines.drop_first(),
                )[i - 1]);
                assert(lines.drop_first()[i - 1] == lines[i]);
            }
        }
    }
}

/// With only nonblank lines numbered, rendering keeps one output line per
/// input line; a blank line comes out bare, and a nonblank line at position
/// `i` carries the counter `counter` plus the number of nonblank lines before
/// it: intervening blank lines do not move the counter.
pub proof fn lemma_nonblank_mode_skips_blank_lines(counter: nat, lines: Seq<Seq<char>>)
    ensures
        rendered(false, true, counter, lines).len() == lines.len(),
        forall|i: int|
            0 <= i < lines.len() ==> #[trigger] rendered(false, true, counter, lines)[i] == (
            if lines[i].len() == 0 {
                Seq::<char>::empty()
            } else {
                numbered_line((counter + nonblank_count(lines.take(i))) as nat, lines[i])
            }),
    decreases lines.len(),
{
    if lines.len() == 0 {
    } else {
        let first = lines.first();
        let rest = lines.drop_first();
        let counter2 = counter_after(false, true, counter, first);
        lemma_nonblank_mode_skips_blank_lines(counter2, rest);
        assert forall|i: int| 0 <= i < lines.len() implies #[trigger] rendered(
            false,
            true,
            counter,
            lines,
        )[i] == (if lines[i].len() == 0 {
            Seq::<char>::empty()
        } else {
            numbered_line((counter + nonblank_count(lines.take(i))) as nat, lines[i])
        }) by {
            if i == 0 {
                assert(lines.take(0) =~= Seq::<Seq<char>>::empty());
                assert(nonblank_count(Seq::<Seq<char>>::empty()) == 0);
            } else {
                assert(rendered(false, true, counter, lines)[i] == rendered(
                    false,
                    true,
                    counter2,
                    rest,
                )[i - 1]);
                assert(rest[i - 1] == lines[i]);
                let t = lines.take(i);
                assert(t[0] == lines[0]);
                assert(t.first() == first);
                assert(t.drop_first() =~= rest.take(i - 1));
                assert(nonblank_count(t) == (if first.len() == 0 {
                    0nat
                } else {
                    1nat
                }) + nonblank_count(rest.take(i - 1)));
                assert(counter2 + nonblank_count(rest.take(i - 1)) == counter + nonblank_count(t));
            }
        }
    }
}

} // verus!
