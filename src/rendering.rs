//! What a rendered error chain is, as a sequence of characters.
use vstd::prelude::*;

verus! {

/// The line that opens the section listing the causes.
pub open spec fn caused_by_line() -> Seq<char> {
    "Caused by:"@
}

/// What starts the line of each cause, in front of its message.
pub open spec fn arrow() -> Seq<char> {
    "  -> "@
}

/// A line break followed by the line that opens the causes.
pub open spec fn caused_by_header() -> Seq<char> {
    seq!['\n'] + caused_by_line()
}

/// A line break followed by the start of a cause's line.
pub open spec fn cause_prefix() -> Seq<char> {
    seq!['\n'] + arrow()
}

/// One cause, on a line of its own.
pub open spec fn cause_line(msg: Seq<char>) -> Seq<char> {
    cause_prefix() + msg
}

/// All causes, outermost first, each on a line of its own.
pub open spec fn cause_lines(causes: Seq<Seq<char>>) -> Seq<char>
    decreases causes.len(),
{
    if causes.len() == 0 {
        Seq::empty()
    } else {
        cause_lines(causes.drop_last()) + cause_line(causes.last())
    }
}

/// The rendering of an error whose own message is `msg` and whose causes,
/// outermost first, have the messages `causes`.
pub open spec fn render_chain(msg: Seq<char>, causes: Seq<Seq<char>>) -> Seq<char> {
    if causes.len() == 0 {
        msg
    } else {
        msg + caused_by_header() + cause_lines(causes)
    }
}

/// The rendering of an error and its causes, line by line: the error's own
/// message; then, if there are causes, `Caused by:` and one line per cause.
pub open spec fn chain_lines(msg: Seq<char>, causes: Seq<Seq<char>>) -> Seq<Seq<char>> {
    if causes.len() == 0 {
        seq![msg]
    } else {
        seq![msg, caused_by_line()] + causes.map_values(|c: Seq<char>| arrow() + c)
    }
}

/// Lines joined with a line break between each two of them.
pub open spec fn join_lines(lines: Seq<Seq<char>>) -> Seq<char>
    decreases lines.len(),
{
    if lines.len() == 0 {
        Seq::empty()
    } else if lines.len() == 1 {
        lines[0]
    } else {
        join_lines(lines.drop_last()) + seq!['\n'] + lines.last()
    }
}

/// The lines of a text: its pieces between line breaks, in order. A text
/// without a line break is one line; a trailing line break ends in an empty line.
pub open spec fn split_lines(s: Seq<char>) -> Seq<Seq<char>>
    decreases s.len(),
{
    if s.len() == 0 {
        seq![Seq::empty()]
    } else {
        let rest = split_lines(s.drop_last());
        if s.last() == '\n' {
            rest.push(Seq::empty())
        } else {
            rest.update(rest.len() - 1, rest.last().push(s.last()))
        }
    }
}

/// No line break anywhere in `s`.
pub open spec fn single_line(s: Seq<char>) -> bool {
    forall|i: int| 0 <= i < s.len() ==> s[i] != '\n'
}

/// `s` is empty or its last character is not a line break.
pub open spec fn no_trailing_newline(s: Seq<char>) -> bool {
    s.len() == 0 || s.last() != '\n'
}

/// The message that a rendering ends with: the innermost cause's, or the
/// error's own where it has no cause.
pub open spec fn last_message(msg: Seq<char>, causes: Seq<Seq<char>>) -> Seq<char> {
    if causes.len() == 0 {
        msg
    } else {
        causes.last()
    }
}

proof fn lemma_split_single_line(s: Seq<char>)
    requires
        single_line(s),
    ensures
        split_lines(s) == seq![s],
    decreases s.len(),
{
    if s.len() == 0 {
        assert(s =~= Seq::<char>::empty());
    } else {
        let init = s.drop_last();
        assert(single_line(init));
        lemma_split_single_line(init);
        assert(s.last() == s[s.len() - 1]);
        assert(init.push(s.last()) =~= s);
        assert(split_lines(s) =~= seq![s]);
    }
}

proof fn lemma_split_after_break(a: Seq<char>, b: Seq<char>)
    requires
        single_line(b),
    ensures
        split_lines(a + seq!['\n'] + b) == split_lines(a).push(b),
    decreases b.len(),
{
    let s = a + seq!['\n'] + b;
    if b.len() == 0 {
        assert(s.drop_last() =~= a);
        assert(s.last() == '\n');
        assert(b =~= Seq::<char>::empty());
    } else {
        let init = b.drop_last();
        assert(single_line(init));
        lemma_split_after_break(a, init);
        assert(s.drop_last() =~= a + seq!['\n'] + init);
        assert(s.last() == b[b.len() - 1]);
        assert(init.push(b.last()) =~= b);
        assert(split_lines(s) =~= split_lines(a).push(b));
    }
}

proof fn lemma_split_join(lines: Seq<Seq<char>>)
    requires
        lines.len() >= 1,
        forall|i: int| 0 <= i < lines.len() ==> single_line(#[trigger] lines[i]),
    ensures
        split_lines(join_lines(lines)) == lines,
    decreases lines.len(),
{
    if lines.len() == 1 {
        lemma_split_single_line(lines[0]);
        assert(seq![lines[0]] =~= lines);
    } else {
        let init = lines.drop_last();
        assert forall|i: int| 0 <= i < init.len() implies single_line(#[trigger] init[i]) by {
            assert(init[i] == lines[i]);
        }
        lemma_split_join(init);
        assert(single_line(lines[lines.len() - 1]));
        lemma_split_after_break(join_lines(init), lines.last());
        assert(init.push(lines.last()) =~= lines);
    }
}

proof fn lemma_join_chain_lines(msg: Seq<char>, causes: Seq<Seq<char>>)
    requires
        causes.len() >= 1,
    ensures
        join_lines(chain_lines(msg, causes)) == render_chain(msg, causes),
    decreases causes.len(),
{
    let lines = chain_lines(msg, causes);
    let init = causes.drop_last();
    assert(lines.drop_last() =~= if init.len() == 0 {
        seq![msg, caused_by_line()]
    } else {
        chain_lines(msg, init)
    });
    assert(lines.last() == arrow() + causes.last());
    if init.len() == 0 {
        let head = seq![msg, caused_by_line()];
        assert(head.drop_last() =~= seq![msg]);
        assert(join_lines(seq![msg]) == msg);
        assert(head.last() == caused_by_line());
        assert(join_lines(head) == msg + seq!['\n'] + caused_by_line());
        assert(cause_lines(init) =~= Seq::<char>::empty());
    } else {
        lemma_join_chain_lines(msg, init);
    }
    assert(join_lines(lines) =~= render_chain(msg, causes));
}

/// An error without a cause renders as exactly its own message.
pub proof fn lemma_no_cause_is_message(msg: Seq<char>)
    ensures
        render_chain(msg, Seq::empty()) == msg,
{
}

/// The rendering is its lines joined by line breaks: the error's own message;
/// then, where there are `n >= 1` causes, the one line `Caused by:` and `n`
/// lines, each `  -> ` followed by the message of one cause alone, in chain
/// order from the outermost cause to the root cause.
pub proof fn lemma_render_lines(msg: Seq<char>, causes: Seq<Seq<char>>)
    ensures
        render_chain(msg, causes) == join_lines(chain_lines(msg, causes)),
        chain_lines(msg, causes)[0] == msg,
        causes.len() == 0 ==> chain_lines(msg, causes).len() == 1,
        causes.len() >= 1 ==> {
            &&& chain_lines(msg, causes).len() == causes.len() + 2
            &&& chain_lines(msg, causes)[1] == caused_by_line()
            &&& forall|i: int|
                0 <= i < causes.len() ==> #[trigger] chain_lines(msg, causes)[i + 2] == arrow()
                    + causes[i]
        },
{
    if causes.len() >= 1 {
        lemma_join_chain_lines(msg, causes);
    }
}

/// Where no message holds a line break, splitting the rendering at its line
/// breaks gives back exactly the lines of `chain_lines`: one `Caused by:`
/// section when there is a cause, one line per cause, each with that cause's
/// own message only.
pub proof fn lemma_render_splits_into_lines(msg: Seq<char>, causes: Seq<Seq<char>>)
    requires
        single_line(msg),
        forall|i: int| 0 <= i < causes.len() ==> single_line(#[trigger] causes[i]),
    ensures
        split_lines(render_chain(msg, causes)) == chain_lines(msg, causes),
{
    reveal_strlit("Caused by:");
    reveal_strlit("  -> ");
    let lines = chain_lines(msg, causes);
    lemma_render_lines(msg, causes);
    assert forall|i: int| 0 <= i < lines.len() implies single_line(#[trigger] lines[i]) by {
        if i >= 2 {
            let c = causes[i - 2];
            assert(lines[i] == arrow() + c);
            assert forall|j: int| 0 <= j < lines[i].len() implies lines[i][j] != '\n' by {
                if j >= arrow().len() {
                    assert(lines[i][j] == c[j - arrow().len()]);
                }
            }
        }
    }
    lemma_split_join(lines);
}

/// The rendering never ends in a line break unless the message it ends with
/// does: in particular never where no message holds one.
pub proof fn lemma_no_trailing_newline(msg: Seq<char>, causes: Seq<Seq<char>>)
    requires
        no_trailing_newline(last_message(msg, causes)),
    ensures
        no_trailing_newline(render_chain(msg, causes)),
{
    reveal_strlit("  -> ");
    if causes.len() > 0 {
        let init = causes.drop_last();
        assert(causes =~= init.push(causes.last()));
        assert(cause_lines(causes) == cause_lines(init) + cause_line(causes.last()));
        let r = render_chain(msg, causes);
        assert(r =~= msg + caused_by_header() + cause_lines(init) + cause_line(causes.last()));
        if causes.last().len() == 0 {
            assert(r.last() == ' ');
        } else {
            assert(r.last() == causes.last().last());
        }
    }
}

} // verus!
