//! The log filter directives of the server.
use vstd::prelude::*;
use vstd::string::StringExecFns;

verus! {

/// `needle` occurs in `hay` as a contiguous run of characters.
pub open spec fn contains_text(hay: Seq<char>, needle: Seq<char>) -> bool {
    exists|i: int| 0 <= i <= hay.len() - needle.len() && #[trigger] hay.subrange(i, i + needle.len()) == needle
}

/// The directives: those of `RUST_LOG` (when set) with debug logging of
/// `diesel` and `tower_http` and trace logging of `axum::rejection` added
/// for each that they do not mention; the defaults when it is not set.
pub open spec fn directives_for(rust_log: Option<Seq<char>>) -> Seq<char> {
    match rust_log {
        Some(d) => {
            let d1 = if contains_text(d, "diesel"@) {
                d
            } else {
                d + ",diesel=debug"@
            };
            let d2 = if contains_text(d1, "tower_http"@) {
                d1
            } else {
                d1 + ",tower_http=debug"@
            };
            if contains_text(d2, "axum::rejection"@) {
                d2
            } else {
                d2 + ",axum::rejection=trace"@
            }
        },
        None => "empire=debug,tower_http=debug,diesel=debug"@,
    }
}

fn chars_of(s: &str) -> (v: Vec<char>)
    ensures
        v@ == s@,
{
    let mut v: Vec<char> = Vec::new();
    for c in it: s.chars()
        invariant
            it.seq() == s@,
            v@ == it.seq().take(it.index()),
    {
        v.push(c);
        assert(v@ =~= it.seq().take(it.index() + 1));
    }
    v
}

/// Whether `needle` occurs in `hay`.
pub fn contains(hay: &str, needle: &str) -> (b: bool)
    ensures
        b == contains_text(hay@, needle@),
{
    let h = chars_of(hay);
    let n = chars_of(needle);
    if n.len() == 0 {
        assert(hay@.subrange(0, 0int + needle@.len()) =~= needle@);
        return true;
    }
    if n.len() > h.len() {
        return false;
    }
    let hl = h.len();
    let nl = n.len();
    let last = hl - nl;
    let mut i: usize = 0;
    while i <= last
        invariant
            h@ == hay@,
            n@ == needle@,
            n@.len() >= 1,
            hl == h@.len(),
            nl == n@.len(),
            last == h@.len() - n@.len(),
            i <= last + 1,
            forall|k: int| 0 <= k < i ==> #[trigger] h@.subrange(k, k + n@.len()) != n@,
        decreases last + 1 - i,
    {
        let mut j: usize = 0;
        let mut same = true;
        while j < nl
            invariant
                h@ == hay@,
                n@ == needle@,
                i <= last,
                hl == h@.len(),
                nl == n@.len(),
                last == h@.len() - n@.len(),
                j <= n@.len(),
                same == forall|m: int| 0 <= m < j ==> h@[i + m] == n@[m],
            decreases n@.len() - j,
        {
            if h[i + j] != n[j] {
                same = false;
            }
            j = j + 1;
        }
        if same {
            assert(h@.subrange(i as int, i + n@.len()) =~= n@);
            return true;
        }
        assert(h@.subrange(i as int, i + n@.len()) != n@) by {
            let m = choose|m: int| 0 <= m < n@.len() && h@[i + m] != n@[m];
            assert(h@.subrange(i as int, i + n@.len())[m] == h@[i + m]);
        }
        i = i + 1;
    }
    false
}

/// The log filter directives for the given value of `RUST_LOG`.
pub fn get_tracing_directives(rust_log: Option<String>) -> (d: String)
    ensures
        d@ == directives_for(
            match rust_log {
                Some(s) => Some(s@),
                None => None,
            },
        ),
{
    match rust_log {
        Some(directives) => {
            let mut directives = directives;
            if !contains(directives.as_str(), "diesel") {
                directives.append(",diesel=debug");
            }
            if !contains(directives.as_str(), "tower_http") {
                directives.append(",tower_http=debug");
            }
            if !contains(directives.as_str(), "axum::rejection") {
                directives.append(",axum::rejection=trace");
            }
            directives
        },
        None => String::from_str("empire=debug,tower_http=debug,diesel=debug"),
    }
}

proof fn lemma_contains_extend(a: Seq<char>, b: Seq<char>, needle: Seq<char>)
    requires
        contains_text(a, needle),
    ensures
        contains_text(a + b, needle),
{
    let i = choose|i: int| 0 <= i <= a.len() - needle.len() && #[trigger] a.subrange(i, i + needle.len()) == needle;
    assert((a + b).subrange(i, i + needle.len()) =~= a.subrange(i, i + needle.len()));
}

proof fn lemma_contains_appended(a: Seq<char>, suffix: Seq<char>, at: int, needle: Seq<char>)
    requires
        0 <= at,
        at + needle.len() <= suffix.len(),
        suffix.subrange(at, at + needle.len()) == needle,
    ensures
        contains_text(a + suffix, needle),
{
    let i = a.len() + at;
    assert((a + suffix).subrange(i, i + needle.len()) =~= suffix.subrange(at, at + needle.len()));
}

/// Whatever `RUST_LOG` holds, the directives always name `diesel` and
/// `tower_http`, so the logs of both are always filtered explicitly.
pub proof fn lemma_directives_name_diesel_and_tower_http(rust_log: Option<Seq<char>>)
    ensures
        contains_text(directives_for(rust_log), "diesel"@),
        contains_text(directives_for(rust_log), "tower_http"@),
{
    reveal_strlit("diesel");
    reveal_strlit("tower_http");
    reveal_strlit(",diesel=debug");
    reveal_strlit(",tower_http=debug");
    reveal_strlit(",axum::rejection=trace");
    reveal_strlit("empire=debug,tower_http=debug,diesel=debug");
    match rust_log {
        Some(d) => {
            let d1 = if contains_text(d, "diesel"@) {
                d
            } else {
                d + ",diesel=debug"@
            };
            if !contains_text(d, "diesel"@) {
                assert(",diesel=debug"@.subrange(1, 7) =~= "diesel"@);
                lemma_contains_appended(d, ",diesel=debug"@, 1, "diesel"@);
            }
            assert(contains_text(d1, "diesel"@));
            let d2 = if contains_text(d1, "tower_http"@) {
                d1
            } else {
                d1 + ",tower_http=debug"@
            };
            if !contains_text(d1, "tower_http"@) {
                assert(",tower_http=debug"@.subrange(1, 11) =~= "tower_http"@);
                lemma_contains_extend(d1, ",tower_http=debug"@, "diesel"@);
                lemma_contains_appended(d1, ",tower_http=debug"@, 1, "tower_http"@);
            }
            assert(contains_text(d2, "diesel"@));
            assert(contains_text(d2, "tower_http"@));
            let d3 = if contains_text(d2, "axum::rejection"@) {
                d2
            } else {
                d2 + ",axum::rejection=trace"@
            };
            if !contains_text(d2, "axum::rejection"@) {
                lemma_contains_extend(d2, ",axum::rejection=trace"@, "diesel"@);
                lemma_contains_extend(d2, ",axum::rejection=trace"@, "tower_http"@);
            }
            assert(directives_for(rust_log) == d3);
            assert(contains_text(d3, "diesel"@));
            assert(contains_text(d3, "tower_http"@));
        },
        None => {
            let s = "empire=debug,tower_http=debug,diesel=debug"@;
            assert(s.subrange(30, 30int + "diesel"@.len()) =~= "diesel"@);
            assert(s.subrange(13, 13int + "tower_http"@.len()) =~= "tower_http"@);
        },
    }
}

} // verus!
