//! Rendering one input's lines for output: every line numbered, only nonblank
//! lines numbered, or the lines unchanged. The counter starts at 1 for each
//! input and does not advance on a blank line in nonblank mode.

use vstd::prelude::*;
use crate::config::Config;
use crate::numbering::{numbered_line, format_numbered};

verus! {

/// The output line for one input line, given the mode and the counter value.
pub open spec fn line_output(number: bool, nonblank: bool, counter: nat, line: Seq<char>) -> Seq<
    char,
> {
    if number {
        numbered_line(counter, line)
    } else if nonblank {
        if line.len() == 0 {
            Seq::empty()
        } else {
            numbered_line(counter, line)
        }
    } else {
        line
    }
}

/// Whether the counter advances past this line: always, except on a blank
/// line when only nonblank lines are numbered.
pub open spec fn line_counted(number: bool, nonblank: bool, line: Seq<char>) -> bool {
    number || !nonblank || line.len() > 0
}

/// The counter value after one line.
pub open spec fn counter_after(number: bool, nonblank: bool, counter: nat, line: Seq<char>) -> nat {
    if line_counted(number, nonblank, line) {
        counter + 1
    } else {
        counter
    }
}

/// How many of the lines are nonblank.
pub open spec fn nonblank_count(lines: Seq<Seq<char>>) -> nat
    decreases lines.len(),
{
    if lines.len() == 0 {
        0
    } else {
        (if lines.first().len() == 0 {
            0nat
        } else {
            1nat
        }) + nonblank_count(lines.drop_first())
    }
}

/// By how much the counter advances over the lines: one per line, except that
/// blank lines do not count when only nonblank lines are numbered.
pub open spec fn counter_advance(number: bool, nonblank: bool, lines: Seq<Seq<char>>) -> nat {
    if !number && nonblank {
        nonblank_count(lines)
    } else {
        lines.len()
    }
}

/// The output lines for the input lines, with the counter starting at
/// `counter`: one output line per input line, formatted by `line_output`.
pub open spec fn rendered(number: bool, nonblank: bool, counter: nat, lines: Seq<Seq<char>>) -> Seq<
    Seq<char>,
>
    decreases lines.len(),
{
    if lines.len() == 0 {
        Seq::empty()
    } else {
        seq![line_output(number, nonblank, counter, lines.first())] + rendered(
            number,
            nonblank,
            counter_after(number, nonblank, counter, lines.first()),
            lines.drop_first(),
        )
    }
}

/// Appending one line to the input raises the counter's advance by one, or
/// leaves it as it was for a blank line that is not counted.
pub proof fn lemma_counter_advance_push(
    number: bool,
    nonblank: bool,
    lines: Seq<Seq<char>>,
    last: Seq<char>,
)
    ensures
        counter_advance(number, nonblank, lines.push(last)) == counter_advance(
            number,
            nonblank,
            lines,
        ) + (if line_counted(number, nonblank, last) {
            1nat
        } else {
            0nat
        }),
    decreases lines.len(),
{
    if lines.len() == 0 {
        assert(lines.push(last) =~= seq![last]);
        assert(seq![last][0] == last);
        assert(seq![last].first() == last);
        assert(seq![last].drop_first() =~= Seq::<Seq<char>>::empty());
        assert(nonblank_count(Seq::<Seq<char>>::empty()) == 0);
        assert(nonblank_count(lines) == 0);
    } else {
        assert(lines.push(last)[0] == lines[0]);
        assert(lines.push(last).first() == lines.first());
        assert(lines.push(last).drop_first() =~= lines.drop_first().push(last));
        lemma_counter_advance_push(number, nonblank, lines.drop_first(), last);
    }
}

/// Appending one line to the input appends its output line, formatted with
/// the counter as it stands after all earlier lines.
pub proof fn lemma_rendered_push(
    number: bool,
    nonblank: bool,
    counter: nat,
    lines: Seq<Seq<char>>,
    last: Seq<char>,
)
    ensures
        rendered(number, nonblank, counter, lines.push(last)) =~= rendered(
            number,
            nonblank,
            counter,
            lines,
        ).push(
            line_output(
                number,
                nonblank,
                counter + counter_advance(number, nonblank, lines),
                last,
            ),
        ),
    decreases lines.len(),
{
    if lines.len() == 0 {
        assert(lines.push(last) =~= seq![last]);
        assert(seq![last][0] == last);
        assert(seq![last].first() == last);
        assert(seq![last].drop_first() =~= Seq::<Seq<char>>::empty());
        assert(rendered(number, nonblank, counter, lines) =~= Seq::<Seq<char>>::empty());
        assert(counter_advance(number, nonblank, lines) == 0);
        let out0 = line_output(number, nonblank, counter, last);
        assert(rendered(number, nonblank, counter, seq![last]) == seq![out0] + rendered(
            number,
            nonblank,
            counter_after(number, nonblank, counter, last),
            Seq::<Seq<char>>::empty(),
        ));
        assert(rendered(
            number,
            nonblank,
            counter_after(number, nonblank, counter, last),
            Seq::<Seq<char>>::empty(),
        ) =~= Seq::<Seq<char>>::empty());
        assert(seq![out0] + Seq::<Seq<char>>::empty() =~= seq![out0]);
        assert(Seq::<Seq<char>>::empty().push(out0) =~= seq![out0]);
    } else {
        let first = lines.first();
        let rest = lines.drop_first();
        let counter2 = counter_after(number, nonblank, counter, first);
        let out0 = line_output(number, nonblank, counter, first);
        assert(lines.push(last)[0] == lines[0]);
        assert(lines.push(last).first() == first);
        assert(lines.push(last).drop_first() =~= rest.push(last));
        lemma_rendered_push(number, nonblank, counter2, rest, last);
        lemma_counter_advance_push(number, nonblank, rest, last);
        assert(counter2 + counter_advance(number, nonblank, rest) == counter + counter_advance(
            number,
            nonblank,
            lines,
        ));
        let out_last = line_output(
            number,
            nonblank,
            counter + counter_advance(number, nonblank, lines),
            last,
        );
        assert(rendered(number, nonblank, counter, lines.push(last)) == seq![out0] + rendered(
            number,
            nonblank,
            counter2,
            rest.push(last),
        ));
        assert(rendered(number, nonblank, counter2, rest.push(last)) == rendered(
            number,
            nonblank,
            counter2,
            rest,
        ).push(out_last));
        assert(seq![out0] + rendered(number, nonblank, counter2, rest).push(out_last) =~= (
        seq![out0] + rendered(number, nonblank, counter2, rest)).push(out_last));
        assert(rendered(number, nonblank, counter, lines) == seq![out0] + rendered(
            number,
            nonblank,
            counter2,
            rest,
        ));
    }
}

/// Renders one input line and advances the counter. In numbering modes the
/// line is prefixed with the right-justified counter and a tab; a blank line
/// in nonblank mode comes out bare and leaves the counter untouched; with no
/// numbering the line is returned unchanged.
pub fn emit_line(number: bool, nonblank: bool, counter: u64, line: &str) -> (r: (String, u64))
    requires
        counter < u64::MAX,
    ensures
        r.0@ == line_output(number, nonblank, counter as nat, line@),
        r.1 as nat == counter_after(number, nonblank, counter as nat, line@),
{
    if number {
        (format_numbered(counter, line), counter + 1)
    } else if nonblank {
        if line.unicode_len() == 0 {
            let r = String::new();
            proof {
                assert(r@ =~= line_output(number, nonblank, counter as nat, line@));
            }
            (r, counter)
        } else {
            (format_numbered(counter, line), counter + 1)
        }
    } else {
        (line.to_owned(), counter + 1)
    }
}

/// Renders all lines of one input under the configuration's mode, counting
/// from 1.
pub fn render_lines(config: &Config, lines: &Vec<String>) -> (out: Vec<String>)
    requires
        config.wf(),
        lines@.len() < u64::MAX,
    ensures
        out@.map_values(|s: String| s@) == rendered(
            config.number_lines,
            config.number_nonblank_lines,
            1,
            lines@.map_values(|s: String| s@),
        ),
{
    let number = config.number_lines;
    let nonblank = config.number_nonblank_lines;
    let ghost views = lines@.map_values(|s: String| s@);
    let mut out: Vec<String> = Vec::new();
    let mut counter: u64 = 1;
    let mut i: usize = 0;
    while i < lines.len()
        invariant
            i <= lines@.len(),
            lines@.len() < u64::MAX,
            views == lines@.map_values(|s: String| s@),
            out@.map_values(|s: String| s@) =~= rendered(number, nonblank, 1, views.take(i as int)),
            counter as nat == 1 + counter_advance(number, nonblank, views.take(i as int)),
            counter as nat <= 1 + i,
        decreases lines@.len() - i,
    {
        let (o, c) = emit_line(number, nonblank, counter, lines[i].as_str());
        out.push(o);
        proof {
            lemma_rendered_push(number, nonblank, 1, views.take(i as int), views[i as int]);
            lemma_counter_advance_push(number, nonblank, views.take(i as int), views[i as int]);
            assert(views.take(i as int).push(views[i as int]) =~= views.take(i + 1 as int));
        }
        counter = c;
        i = i + 1;
    }
    proof {
        assert(views.take(lines@.len() as int) =~= views);
    }
    out
}

/// The output text for a sequence of output lines: each line followed by one
/// newline.
pub open spec fn joined(lines: Seq<Seq<char>>) -> Seq<char>
    decreases lines.len(),
{
    if lines.len() == 0 {
        Seq::empty()
    } else {
        lines.first() + seq!['\n'] + joined(lines.drop_first())
    }
}

/// Appending one line appends its text and a newline.
pub proof fn lemma_joined_push(lines: Seq<Seq<char>>, last: Seq<char>)
    ensures
        joined(lines.push(last)) =~= joined(lines) + last + seq!['\n'],
    decreases lines.len(),
{
    if lines.len() == 0 {
        assert(lines.push(last) =~= seq![last]);
        assert(seq![last][0] == last);
        assert(seq![last].first() == last);
        assert(seq![last].drop_first() =~= Seq::<Seq<char>>::empty());
        assert(joined(lines) =~= Seq::<char>::empty());
        assert(joined(seq![last]) == last + seq!['\n'] + joined(Seq::<Seq<char>>::empty()));
        assert(joined(Seq::<Seq<char>>::empty()) =~= Seq::<char>::empty());
        assert(last + seq!['\n'] + Seq::<char>::empty() =~= Seq::<char>::empty() + last
            + seq!['\n']);
    } else {
        let first = lines.first();
        let rest = lines.drop_first();
        assert(lines.push(last)[0] == lines[0]);
        assert(lines.push(last).first() == first);
        assert(lines.push(last).drop_first() =~= rest.push(last));
        lemma_joined_push(rest, last);
        assert(joined(lines.push(last)) == first + seq!['\n'] + joined(rest.push(last)));
        assert(joined(rest.push(last)) == joined(rest) + last + seq!['\n']);
        assert(joined(lines) == first + seq!['\n'] + joined(rest));
        assert(first + seq!['\n'] + (joined(rest) + last + seq!['\n']) =~= (first + seq!['\n']
            + joined(rest)) + last + seq!['\n']);
    }
}

/// Concatenates the lines, writing one newline after each.
pub fn join_lines(lines: &Vec<String>) -> (r: String)
    ensures
        r@ == joined(lines@.map_values(|s: String| s@)),
{
    let ghost views = lines@.map_values(|s: String| s@);
    let mut r = String::new();
    let mut i: usize = 0;
    while i < lines.len()
        invariant
            i <= lines@.len(),
            views == lines@.map_values(|s: String| s@),
            r@ =~= joined(views.take(i as int)),
        decreases lines@.len() - i,
    {
        r.append(lines[i].as_str());
        proof {
            reveal_strlit("\n");
        }
        r.append("\n");
        i = i + 1;
        proof {
            lemma_joined_push(views.take(i as int - 1), views[i as int - 1]);
            assert(views.take(i as int - 1).push(views[i as int - 1]) =~= views.take(i as int));
            assert("\n"@ =~= seq!['\n']);
            assert(r@ =~= joined(views.take(i as int)));
        }
    }
    proof {
        assert(views.take(lines@.len() as int) =~= views);
    }
    r
}

/// The whole output text for one input: its lines rendered under the
/// configuration's mode, counting from 1, each followed by one newline.
pub fn render_input(config: &Config, lines: &Vec<String>) -> (r: String)
    requires
        config.wf(),
        lines@.len() < u64::MAX,
    ensures
        r@ == joined(
            rendered(
                config.number_lines,
                config.number_nonblank_lines,
                1,
                lines@.map_values(|s: String| s@),
            ),
        ),
{
    let out = render_lines(config, lines);
    join_lines(&out)
}

} // verus!
