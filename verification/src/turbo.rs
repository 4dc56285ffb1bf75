//! Turbo mode: the state that lets the operating-system tweaks be undone,
//! and reading the active power scheme from `powercfg /getactivescheme`.
//! Making the system calls is left to the caller.

use vstd::prelude::*;
use vstd::string::*;

use crate::text::{
    is_whitespace, push_char, spec_is_whitespace, spec_utf8_bytes, spec_utf8_len, utf8_len,
};

verus! {

/// GUID of the built-in "High Performance" power scheme.
pub const HIGH_PERFORMANCE_SCHEME: &'static str = "8c5e7fda-e8bf-4a96-9a85-a6e23a8c635c";

/// `s[a..b]` is a word of `s`: a non-empty, maximal run of characters that
/// are not whitespace.
pub open spec fn is_word_at(s: Seq<char>, a: int, b: int) -> bool {
    &&& 0 <= a < b <= s.len()
    &&& (a == 0 || spec_is_whitespace(s[a - 1]))
    &&& (b == s.len() || spec_is_whitespace(s[b]))
    &&& forall|k: int| a <= k < b ==> !spec_is_whitespace(#[trigger] s[k])
}

/// A word that looks like a scheme GUID: 36 bytes long, with a dash in it.
pub open spec fn is_guid_like(w: Seq<char>) -> bool {
    spec_utf8_bytes(w) == 36 && w.contains('-')
}

/// No word of `s` that starts before `a` looks like a GUID.
pub open spec fn no_guid_before(s: Seq<char>, a: int) -> bool {
    forall|a2: int, b2: int|
        #![trigger is_word_at(s, a2, b2)]
        is_word_at(s, a2, b2) && a2 < a ==> !is_guid_like(s.subrange(a2, b2))
}

/// The first word of `powercfg` output that looks like a scheme GUID.
pub fn scheme_guid(s: &str) -> (r: Option<String>)
    ensures
        match r {
            Some(w) => exists|a: int, b: int|
                #![trigger is_word_at(s@, a, b)]
                is_word_at(s@, a, b) && w@ == s@.subrange(a, b) && is_guid_like(w@)
                    && no_guid_before(s@, a),
            None => no_guid_before(s@, s@.len() as int),
        },
{
    let n = s.unicode_len();
    let mut i: usize = 0;
    let mut in_word = false;
    let mut start: usize = 0;
    let mut cur = String::new();
    let mut bytes: usize = 0;
    let mut dash = false;
    while i < n
        invariant
            n == s@.len(),
            i <= n,
            start <= i,
            in_word ==> start < i,
            in_word ==> (start == 0 || spec_is_whitespace(s@[start - 1])),
            in_word ==> forall|k: int| start <= k < i ==> !spec_is_whitespace(#[trigger] s@[k]),
            in_word ==> cur@ == s@.subrange(start as int, i as int),
            in_word ==> bytes == if spec_utf8_bytes(cur@) < 37 { spec_utf8_bytes(cur@) } else { 37 },
            in_word ==> dash == cur@.contains('-'),
            !in_word ==> (i == 0 || spec_is_whitespace(s@[i - 1])),
            no_guid_before(s@, if in_word { start as int } else { i as int }),
        decreases n - i,
    {
        let c = s.get_char(i);
        if is_whitespace(c) {
            if in_word {
                proof {
                    assert(is_word_at(s@, start as int, i as int));
                }
                if bytes == 36 && dash {
                    return Some(cur);
                }
                proof {
                    assert forall|a2: int, b2: int|
                        #![trigger is_word_at(s@, a2, b2)]
                        is_word_at(s@, a2, b2) && a2 < i + 1 implies !is_guid_like(
                            s@.subrange(a2, b2),
                        ) by {
                        if a2 >= start {
                            if a2 > start {
                                assert(!spec_is_whitespace(s@[a2 - 1]));
                            }
                            if b2 < i {
                                assert(!spec_is_whitespace(s@[b2]));
                            }
                            if b2 > i {
                                assert(!spec_is_whitespace(s@[i as int]));
                            }
                        }
                    }
                }
                in_word = false;
            } else {
                proof {
                    assert forall|a2: int, b2: int|
                        #![trigger is_word_at(s@, a2, b2)]
                        is_word_at(s@, a2, b2) && a2 < i + 1 implies !is_guid_like(
                            s@.subrange(a2, b2),
                        ) by {
                        if a2 == i {
                            assert(!spec_is_whitespace(s@[i as int]));
                        }
                    }
                }
            }
        } else {
            if !in_word {
                in_word = true;
                start = i;
                cur = String::new();
                bytes = 0;
                dash = false;
                proof {
                    assert(cur@ =~= s@.subrange(start as int, i as int));
                    assert(spec_utf8_bytes(cur@) == 0);
                }
            }
            let ghost old_cur = cur@;
            push_char(&mut cur, c);
            proof {
                assert(cur@ =~= s@.subrange(start as int, i + 1));
                assert(cur@.drop_last() =~= old_cur);
                assert(cur@.last() == c);
                assert(spec_utf8_bytes(cur@) == spec_utf8_bytes(old_cur) + spec_utf8_len(c));
                assert(cur@.contains('-') == (old_cur.contains('-') || c == '-')) by {
                    if c == '-' {
                        assert(cur@[cur@.len() - 1] == '-');
                    }
                    if old_cur.contains('-') {
                        let k = choose|k: int| 0 <= k < old_cur.len() && old_cur[k] == '-';
                        assert(cur@[k] == '-');
                    }
                    if cur@.contains('-') {
                        let k = choose|k: int| 0 <= k < cur@.len() && cur@[k] == '-';
                        if k < old_cur.len() {
                            assert(old_cur[k] == '-');
                        }
                    }
                }
            }
            let w = utf8_len(c);
            if bytes < 37 {
                bytes = if bytes + w < 37 { bytes + w } else { 37 };
            }
            dash = dash || c == '-';
        }
        i = i + 1;
    }
    if in_word {
        proof {
            assert(is_word_at(s@, start as int, i as int));
        }
        if bytes == 36 && dash {
            return Some(cur);
        }
        proof {
            assert forall|a2: int, b2: int|
                #![trigger is_word_at(s@, a2, b2)]
                is_word_at(s@, a2, b2) && a2 < n implies !is_guid_like(s@.subrange(a2, b2)) by {
                if a2 >= start {
                    if a2 > start {
                        assert(!spec_is_whitespace(s@[a2 - 1]));
                    }
                    if b2 < i {
                        assert(!spec_is_whitespace(s@[b2]));
                    }
                }
            }
        }
    }
    None
}

/// What turbo mode needs to undo its power-plan change: the scheme that was
/// active before, if it could be read.
pub struct TurboGuard {
    original_power_scheme: Option<String>,
}

impl TurboGuard {
    /// The guard for a turbo session. `active_scheme_output` is what
    /// `powercfg /getactivescheme` printed before the switch, if it ran; the
    /// scheme to restore is the first GUID in it.
    pub fn engage(active_scheme_output: Option<String>) -> (r: Self)
        ensures
            match active_scheme_output {
                Some(out) => match r.original_power_scheme() {
                    Some(g) => exists|a: int, b: int|
                        #![trigger is_word_at(out@, a, b)]
                        is_word_at(out@, a, b) && g@ == out@.subrange(a, b) && is_guid_like(g@)
                            && no_guid_before(out@, a),
                    None => no_guid_before(out@, out@.len() as int),
                },
                None => r.original_power_scheme() is None,
            },
    {
        let original_power_scheme = match active_scheme_output {
            Some(out) => scheme_guid(out.as_str()),
            None => None,
        };
        TurboGuard { original_power_scheme }
    }

    pub closed spec fn original_power_scheme(&self) -> Option<String> {
        self.original_power_scheme
    }

    /// The scheme to restore when turbo mode ends.
    pub fn scheme_to_restore(&self) -> (r: Option<String>)
        ensures
            r == self.original_power_scheme(),
    {
        self.original_power_scheme.clone()
    }
}

} // verus!
