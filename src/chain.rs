//! The formatter that shows an error followed by its whole cause chain.
use vstd::prelude::*;

use crate::rendering::{caused_by_header, cause_line, cause_prefix, cause_lines, render_chain};
use crate::source::ErrorLike;

verus! {

/// Shows an error and, below it, every error of its cause chain.
pub struct DisplayErrorChain<'a, E>(&'a E);

impl<'a, E: ErrorLike> DisplayErrorChain<'a, E> {
    /// The error this formatter shows.
    pub closed spec fn error(&self) -> E {
        *self.0
    }

    /// Initializes the formatter with the error provided.
    pub fn new(error: &'a E) -> (r: Self)
        ensures
            r.error() == *error,
    {
        DisplayErrorChain(error)
    }

    /// The error's own message; then, if it has a cause, a `Caused by:` line
    /// and one line `  -> <message>` per cause, outermost first, with no
    /// trailing newline.
    pub fn to_string(&self) -> (r: String)
        ensures
            r@ == render_chain(self.error().message(), self.error().causes()),
    {
        let top = self.0;
        let mut out = top.describe();
        let ghost msg = top.message();
        let ghost causes = top.causes();
        let mut source = top.cause();
        let ghost mut shown: int = 0;
        let mut cause_printed = false;
        loop
            invariant
                msg == self.error().message(),
                causes == self.error().causes(),
                0 <= shown <= causes.len(),
                cause_printed == (shown > 0),
                source is None <==> shown == causes.len(),
                source matches Some(c) ==> c.message() == causes[shown]
                    && c.causes() == causes.skip(shown + 1),
                out@ == if shown == 0 {
                    msg
                } else {
                    msg + caused_by_header() + cause_lines(causes.take(shown))
                },
            ensures
                shown == causes.len(),
                out@ == if shown == 0 {
                    msg
                } else {
                    msg + caused_by_header() + cause_lines(causes.take(shown))
                },
            decreases causes.len() - shown,
        {
            let cause = match source {
                None => break,
                Some(c) => c,
            };
            if !cause_printed {
                cause_printed = true;
                out.append("\nCaused by:");
            }
            proof {
                reveal_strlit("\nCaused by:");
                reveal_strlit("Caused by:");
                reveal_strlit("\n  -> ");
                reveal_strlit("  -> ");
                assert("\nCaused by:"@ =~= caused_by_header());
                assert("\n  -> "@ =~= cause_prefix());
            }
            let ghost before = out@;
            out.append("\n  -> ");
            let text = cause.describe();
            out.append(text.as_str());
            assert(out@ =~= before + cause_line(causes[shown]));
            source = cause.cause();
            proof {
                let next = causes.take(shown + 1);
                assert(next.drop_last() =~= causes.take(shown));
                assert(next.last() == causes[shown]);
                assert(cause_lines(next) == cause_lines(causes.take(shown)) + cause_line(
                    causes[shown],
                ));
                if shown == 0 {
                    assert(causes.take(0) =~= Seq::<Seq<char>>::empty());
                }
                assert(out@ =~= msg + caused_by_header() + cause_lines(next));
                if let Some(c) = source {
                    assert(c.causes() =~= causes.skip(shown + 2));
                }
                shown = shown + 1;
            }
        }
        proof {
            assert(causes.take(shown) =~= causes);
        }
        out
    }
}

/// The rendering depends on nothing but the error's own message and the
/// messages of its causes: rendering the same unchanged error twice, or two
/// errors that agree on those, gives identical text.
pub proof fn lemma_render_deterministic<E: ErrorLike>(a: &E, b: &E)
    requires
        a.message() == b.message(),
        a.causes() == b.causes(),
    ensures
        render_chain(a.message(), a.causes()) == render_chain(b.message(), b.causes()),
{
}

} // verus!
