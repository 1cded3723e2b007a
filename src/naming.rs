//! The category naming policy: how a raw directory or object name becomes
//! the category name used in the dataset.
use vstd::prelude::*;
use vstd::string::*;
use crate::error::ConvertError;
use crate::text::{is_ascii_digit, str_equals};

verus! {

/// Granularity of the category names.
#[derive(Debug, Clone, Copy, PartialEq, Eq)]
pub enum Cls {
    /// Names are kept as they are.
    Full,
    /// Names are cut before their first ASCII digit ("whale1" becomes "whale").
    Medium,
    /// Every name becomes the one fixed label.
    Single,
}

/// The label that single mode gives to every object.
pub open spec fn single_label() -> Seq<char> {
    seq!['d', 'a', 'c', '_', 'o', 'b', 'j', 'e', 'c', 't']
}

pub open spec fn has_digit(s: Seq<char>) -> bool {
    exists|i: int| 0 <= i < s.len() && is_ascii_digit(s[i])
}

/// `i` is the position of the first ASCII digit of `s`.
pub open spec fn is_first_digit(s: Seq<char>, i: int) -> bool {
    &&& 0 <= i < s.len()
    &&& is_ascii_digit(s[i])
    &&& forall|j: int| 0 <= j < i ==> !is_ascii_digit(#[trigger] s[j])
}

/// The medium-mode name: what comes before the first ASCII digit, if any.
pub open spec fn medium_name(s: Seq<char>) -> Option<Seq<char>> {
    if has_digit(s) {
        Some(s.take(choose|i: int| is_first_digit(s, i)))
    } else {
        None
    }
}

/// The normalized name of `s` under `cls`; `None` where medium mode
/// finds no digit.
pub open spec fn class_name(cls: Cls, s: Seq<char>) -> Option<Seq<char>> {
    match cls {
        Cls::Full => Some(s),
        Cls::Medium => medium_name(s),
        Cls::Single => Some(single_label()),
    }
}

/// The mode that a configuration word selects: "full", "medium" or
/// "single"; no other word selects one.
pub open spec fn mode_of(s: Seq<char>) -> Option<Cls> {
    if s == "full"@ {
        Some(Cls::Full)
    } else if s == "medium"@ {
        Some(Cls::Medium)
    } else if s == "single"@ {
        Some(Cls::Single)
    } else {
        None
    }
}

/// Full mode leaves every name as it is.
pub proof fn full_mode_is_identity(s: Seq<char>)
    ensures
        class_name(Cls::Full, s) == Some(s),
{
}

/// Single mode gives every name the same label.
pub proof fn single_mode_is_constant(s: Seq<char>, t: Seq<char>)
    ensures
        class_name(Cls::Single, s) == Some(single_label()),
        class_name(Cls::Single, s) == class_name(Cls::Single, t),
{
}

impl Default for Cls {
    fn default() -> (r: Self)
        ensures
            r == Cls::Full,
    {
        Cls::Full
    }
}

impl Cls {
    /// Reads a mode from its configuration word: "full", "medium" or
    /// "single". Any other word is refused with `InvalidMode`.
    pub fn from_str(s: &str) -> (r: Result<Self, ConvertError>)
        ensures
            r is Ok <==> (s@ == "full"@ || s@ == "medium"@ || s@ == "single"@),
            match r {
                Ok(m) => mode_of(s@) == Some(m),
                Err(e) => mode_of(s@) is None && e is InvalidMode && e->InvalidMode_word@ == s@,
            },
    {
        proof {
            reveal_strlit("full");
            reveal_strlit("medium");
            reveal_strlit("single");
            assert("full"@ != "medium"@) by { assert("full"@[0] != "medium"@[0]); }
            assert("full"@ != "single"@) by { assert("full"@[0] != "single"@[0]); }
            assert("medium"@ != "single"@) by { assert("medium"@[0] != "single"@[0]); }
        }
        if str_equals(s, "full") {
            Ok(Cls::Full)
        } else if str_equals(s, "medium") {
            Ok(Cls::Medium)
        } else if str_equals(s, "single") {
            Ok(Cls::Single)
        } else {
            Err(ConvertError::InvalidMode { word: s.to_owned() })
        }
    }

    /// The category name of `s` under this mode.
    pub fn get_name(&self, s: &str) -> (r: Result<String, ConvertError>)
        ensures
            match r {
                Ok(n) => class_name(*self, s@) == Some(n@),
                Err(e) => class_name(*self, s@) is None && e is NamingError
                    && e->NamingError_name@ == s@,
            },
    {
        match *self {
            Cls::Full => Ok(s.to_owned()),
            Cls::Single => {
                proof {
                    reveal_strlit("dac_object");
                }
                let label = "dac_object".to_owned();
                proof {
                    assert(label@ =~= single_label());
                }
                Ok(label)
            },
            Cls::Medium => {
                let n = s.unicode_len();
                let mut i: usize = 0;
                while i < n
                    invariant
                        *self is Medium,
                        n == s@.len(),
                        i <= n,
                        forall|j: int| 0 <= j < i ==> !is_ascii_digit(#[trigger] s@[j]),
                    decreases n - i,
                {
                    let c = s.get_char(i);
                    if '0' <= c && c <= '9' {
                        let prefix = s.substring_char(0, i).to_owned();
                        proof {
                            assert(is_first_digit(s@, i as int));
                            assert(has_digit(s@));
                            let k = choose|k: int| is_first_digit(s@, k);
                            if k < i {
                                assert(!is_ascii_digit(s@[k]));
                            } else if k > i {
                                assert(!is_ascii_digit(s@[i as int]));
                            }
                            assert(k == i);
                            assert(prefix@ =~= s@.take(i as int));
                        }
                        return Ok(prefix);
                    }
                    i = i + 1;
                }
                Err(ConvertError::NamingError { name: s.to_owned() })
            },
        }
    }
}

} // verus!
