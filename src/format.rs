use vstd::prelude::*;

verus! {

/// The unit in which an integer timestamp counts time since the Unix epoch.
#[derive(Clone, Copy, Debug, PartialEq, Eq, Structural)]
pub enum Format {
    Seconds,
    Milliseconds,
    Microseconds,
    Nanoseconds,
}

impl Default for Format {
    /// Timestamps count seconds unless told otherwise.
    fn default() -> (r: Format)
        ensures
            r == Format::Seconds,
    {
        Format::Seconds
    }
}

impl Format {
    /// The short symbol printed beside a value of this unit.
    pub open spec fn symbol_spec(self) -> Seq<char> {
        match self {
            Format::Seconds => seq!['s'],
            Format::Milliseconds => seq!['m', 's'],
            Format::Microseconds => seq!['\u{3bc}', 's'],
            Format::Nanoseconds => seq!['n', 's'],
        }
    }

    /// How many nanoseconds one count of this unit stands for.
    pub open spec fn nanos_per_unit(self) -> int {
        match self {
            Format::Seconds => 1_000_000_000,
            Format::Milliseconds => 1_000_000,
            Format::Microseconds => 1_000,
            Format::Nanoseconds => 1,
        }
    }

    pub fn symbol(&self) -> (r: String)
        ensures
            r@ == self.symbol_spec(),
    {
        let s: &str = match self {
            Format::Seconds => "s",
            Format::Milliseconds => "ms",
            Format::Microseconds => "\u{3bc}s",
            Format::Nanoseconds => "ns",
        };
        proof {
            reveal_strlit("s");
            reveal_strlit("ms");
            reveal_strlit("\u{3bc}s");
            reveal_strlit("ns");
        }
        s.to_string()
    }
}

} // verus!
