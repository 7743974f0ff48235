use vstd::prelude::*;

verus! {

/// A destination for directive lines: either the process's standard
/// output (the default destination, resolved by the caller) or an
/// in-memory capture buffer, used by tests and for redirecting output.
///
/// The view of a sink is the complete text written to it so far.
pub enum Sink {
    /// Lines go to the process's standard output; the text written so
    /// far is tracked only in ghost state.
    Stdout(Ghost<Seq<char>>),
    /// Lines accumulate in an in-memory buffer.
    Capture(String),
}

impl View for Sink {
    type V = Seq<char>;

    open spec fn view(&self) -> Seq<char> {
        match self {
            Sink::Stdout(written) => written@,
            Sink::Capture(buffer) => buffer@,
        }
    }
}

/// Relies on std::io::Stdout::write_all: writes the bytes of `piece` to
/// the process's standard output. A failed write aborts the process: a
/// broken sink is fatal by design, never retried or suppressed.
#[verifier::external_body]
fn write_stdout(piece: &str) {
    let mut out = std::io::stdout();
    std::io::Write::write_all(&mut out, piece.as_bytes()).expect("failed to write to standard output");
}

impl Sink {
    /// A sink that writes to the process's standard output.
    pub fn stdout() -> (s: Sink)
        ensures
            s@ == Seq::<char>::empty(),
    {
        Sink::Stdout(Ghost(Seq::empty()))
    }

    /// A sink that captures everything written to it.
    pub fn capture() -> (s: Sink)
        ensures
            s@ == Seq::<char>::empty(),
            s is Capture,
    {
        Sink::Capture(String::new())
    }

    /// Append `piece` to whatever was written before; nothing is
    /// buffered, reordered or dropped.
    pub fn write_str(&mut self, piece: &str)
        ensures
            final(self)@ == old(self)@ + piece@,
            *final(self) is Capture <==> *old(self) is Capture,
    {
        match self {
            Sink::Stdout(written) => {
                write_stdout(piece);
                let w: Ghost<Seq<char>> = Ghost(written@ + piece@);
                *written = w;
            }
            Sink::Capture(buffer) => {
                buffer.append(piece);
            }
        }
    }

    /// The text captured so far; empty for a standard-output sink,
    /// whose writes cannot be read back.
    pub fn captured(&self) -> (r: &str)
        ensures
            self is Capture ==> r@ == self@,
            self is Stdout ==> r@ == Seq::<char>::empty(),
    {
        match self {
            Sink::Capture(buffer) => buffer.as_str(),
            Sink::Stdout(_) => {
                proof {
                    reveal_strlit("");
                    assert(""@ =~= Seq::<char>::empty());
                }
                ""
            }
        }
    }
}

} // verus!
