//! Byte units used to present memory, storage and traffic figures.
use vstd::prelude::*;

verus! {

/// A binary byte unit: each step is 1024 times the previous one.
#[derive(Debug, Clone, Copy, PartialEq, Eq, Structural)]
pub enum ByteUnit {
    Byte,
    Kilobyte,
    Megabyte,
    Gigabyte,
    Terabyte,
    Petabyte,
}

/// The number of 1024-fold steps above a single byte.
pub open spec fn unit_exponent(u: ByteUnit) -> nat {
    match u {
        ByteUnit::Byte => 0,
        ByteUnit::Kilobyte => 1,
        ByteUnit::Megabyte => 2,
        ByteUnit::Gigabyte => 3,
        ByteUnit::Terabyte => 4,
        ByteUnit::Petabyte => 5,
    }
}

/// `1024` raised to the power `e`.
pub open spec fn pow1024(e: nat) -> nat
    decreases e,
{
    if e == 0 {
        1
    } else {
        1024 * pow1024((e - 1) as nat)
    }
}

/// The label of a unit: `B`, `KB`, `MB`, `GB`, `TB` or `PB`.
pub open spec fn unit_label(u: ByteUnit) -> Seq<char> {
    match u {
        ByteUnit::Byte => seq!['B'],
        ByteUnit::Kilobyte => seq!['K', 'B'],
        ByteUnit::Megabyte => seq!['M', 'B'],
        ByteUnit::Gigabyte => seq!['G', 'B'],
        ByteUnit::Terabyte => seq!['T', 'B'],
        ByteUnit::Petabyte => seq!['P', 'B'],
    }
}

/// The unit that a configuration text names: `KB`, `MB`, `GB`, `TB` and
/// `PB` name the matching unit and any other text means bytes.
pub open spec fn parsed_unit(s: Seq<char>) -> ByteUnit {
    if s == seq!['K', 'B'] {
        ByteUnit::Kilobyte
    } else if s == seq!['M', 'B'] {
        ByteUnit::Megabyte
    } else if s == seq!['G', 'B'] {
        ByteUnit::Gigabyte
    } else if s == seq!['T', 'B'] {
        ByteUnit::Terabyte
    } else if s == seq!['P', 'B'] {
        ByteUnit::Petabyte
    } else {
        ByteUnit::Byte
    }
}

impl ByteUnit {
    /// Reads a unit from its configuration text; unknown text means bytes.
    pub fn parse(unit: &str) -> (r: ByteUnit)
        ensures
            r == parsed_unit(unit@),
    {
        if unit.unicode_len() != 2 || unit.get_char(1) != 'B' {
            return ByteUnit::Byte;
        }
        let c = unit.get_char(0);
        assert(unit@ =~= seq![c, 'B']);
        if c == 'K' {
            ByteUnit::Kilobyte
        } else if c == 'M' {
            ByteUnit::Megabyte
        } else if c == 'G' {
            ByteUnit::Gigabyte
        } else if c == 'T' {
            ByteUnit::Terabyte
        } else if c == 'P' {
            ByteUnit::Petabyte
        } else {
            ByteUnit::Byte
        }
    }

    /// The number of bytes in one of this unit: `1024` to the power of the
    /// unit's step.
    pub fn to_bytes(&self) -> (r: u64)
        ensures
            r == pow1024(unit_exponent(*self)),
    {
        proof {
            reveal_with_fuel(pow1024, 6);
        }
        match self {
            ByteUnit::Byte => 1,
            ByteUnit::Kilobyte => 1024,
            ByteUnit::Megabyte => 1024 * 1024,
            ByteUnit::Gigabyte => 1024 * 1024 * 1024,
            ByteUnit::Terabyte => 1024 * 1024 * 1024 * 1024,
            ByteUnit::Petabyte => 1024 * 1024 * 1024 * 1024 * 1024,
        }
    }

    /// The unit's label, as it is shown to users.
    pub fn label(&self) -> (r: &'static str)
        ensures
            r@ == unit_label(*self),
    {
        match self {
            ByteUnit::Byte => {
                proof {
                    reveal_strlit("B");
                }
                "B"
            },
            ByteUnit::Kilobyte => {
                proof {
                    reveal_strlit("KB");
                }
                "KB"
            },
            ByteUnit::Megabyte => {
                proof {
                    reveal_strlit("MB");
                }
                "MB"
            },
            ByteUnit::Gigabyte => {
                proof {
                    reveal_strlit("GB");
                }
                "GB"
            },
            ByteUnit::Terabyte => {
                proof {
                    reveal_strlit("TB");
                }
                "TB"
            },
            ByteUnit::Petabyte => {
                proof {
                    reveal_strlit("PB");
                }
                "PB"
            },
        }
    }

    /// The label as an owned string, as `to_string` gives it.
    pub fn to_label_string(&self) -> (r: String)
        ensures
            r@ == unit_label(*self),
    {
        String::from_str(self.label())
    }
}

/// Reading back the label of any unit gives that unit.
pub proof fn law_parse_label_roundtrip(u: ByteUnit)
    ensures
        parsed_unit(unit_label(u)) == u,
{
    match u {
        ByteUnit::Byte => {
            assert(seq!['B'].len() == 1);
            assert(seq!['B'] != seq!['K', 'B']);
            assert(seq!['B'] != seq!['M', 'B']);
            assert(seq!['B'] != seq!['G', 'B']);
            assert(seq!['B'] != seq!['T', 'B']);
            assert(seq!['B'] != seq!['P', 'B']);
        },
        ByteUnit::Kilobyte => {},
        ByteUnit::Megabyte => {
            assert(seq!['M', 'B'][0] != seq!['K', 'B'][0]);
        },
        ByteUnit::Gigabyte => {
            assert(seq!['G', 'B'][0] != seq!['K', 'B'][0]);
            assert(seq!['G', 'B'][0] != seq!['M', 'B'][0]);
        },
        ByteUnit::Terabyte => {
            assert(seq!['T', 'B'][0] != seq!['K', 'B'][0]);
            assert(seq!['T', 'B'][0] != seq!['M', 'B'][0]);
            assert(seq!['T', 'B'][0] != seq!['G', 'B'][0]);
        },
        ByteUnit::Petabyte => {
            assert(seq!['P', 'B'][0] != seq!['K', 'B'][0]);
            assert(seq!['P', 'B'][0] != seq!['M', 'B'][0]);
            assert(seq!['P', 'B'][0] != seq!['G', 'B'][0]);
            assert(seq!['P', 'B'][0] != seq!['T', 'B'][0]);
        },
    }
}

} // verus!
