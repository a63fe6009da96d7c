//! Values that describe themselves and may point at the error that caused them.
use vstd::prelude::*;

verus! {

/// An error that has a message of its own and may expose its cause, which is
/// an error of the same kind.
///
/// `message` is what `describe` returns; `causes` lists the messages of the
/// whole cause chain below this error, outermost first. A chain is finite.
pub trait ErrorLike: Sized {
    /// This error's own message, without anything of its cause.
    spec fn message(&self) -> Seq<char>;

    /// The messages of the causes below this error, outermost first.
    spec fn causes(&self) -> Seq<Seq<char>>;

    /// Renders this error's own message.
    fn describe(&self) -> (r: String)
        ensures
            r@ == self.message(),
    ;

    /// The error that caused this one, if any.
    fn cause(&self) -> (r: Option<&Self>)
        ensures
            r is None <==> self.causes().len() == 0,
            r matches Some(c) ==> c.message() == self.causes()[0]
                && c.causes() == self.causes().drop_first(),
    ;
}

/// A plain error value: a message and, optionally, the error behind it.
pub struct ChainedError {
    pub message: String,
    pub cause: Option<Box<ChainedError>>,
}

/// The messages of the errors below `e`, outermost first.
pub open spec fn causes_of(e: ChainedError) -> Seq<Seq<char>>
    decreases e,
{
    match e.cause {
        None => Seq::empty(),
        Some(c) => seq![c.message@] + causes_of(*c),
    }
}

impl ChainedError {
    /// An error with the given message and no cause.
    pub fn new(message: String) -> (r: ChainedError)
        ensures
            r.message() == message@,
            r.causes() == Seq::<Seq<char>>::empty(),
    {
        ChainedError { message, cause: None }
    }

    /// An error with the given message, caused by `cause`.
    pub fn with_cause(message: String, cause: ChainedError) -> (r: ChainedError)
        ensures
            r.message() == message@,
            r.causes() == seq![cause.message()] + cause.causes(),
    {
        ChainedError { message, cause: Some(Box::new(cause)) }
    }
}

impl ErrorLike for ChainedError {
    open spec fn message(&self) -> Seq<char> {
        self.message@
    }

    open spec fn causes(&self) -> Seq<Seq<char>> {
        causes_of(*self)
    }

    fn describe(&self) -> (r: String) {
        self.message.clone()
    }

    fn cause(&self) -> (r: Option<&Self>) {
        match &self.cause {
            None => None,
            Some(c) => Some(&**c),
        }
    }
}

} // verus!
