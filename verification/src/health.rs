//! The health probe's answer and the listen address the server and the
//! probe agree on.

use vstd::prelude::*;
use crate::text::{chars_of, is_white_space};

verus! {

/// Health probe response: `{"status": "ok", "db": "ok"}` once the
/// database answered.
#[derive(Debug, Clone, Copy)]
pub struct Health {
    pub status: &'static str,
    pub db: &'static str,
}

impl Health {
    /// The answer of a healthy service whose database answered.
    pub fn ok() -> (r: Health)
        ensures
            r.status@ == "ok"@,
            r.db@ == "ok"@,
    {
        Health { status: "ok", db: "ok" }
    }
}

/// Listen address used when none is configured: loopback, so a
/// development run is not exposed on the network.
pub const DEFAULT_BIND_ADDR: &'static str = "127.0.0.1:8080";

/// The `endpoint` label shared by requests that matched no route.
pub const UNMATCHED_ENDPOINT: &'static str = "unmatched";

/// The listen address text: the configured one, or the default.
pub fn bind_addr_text(configured: Option<String>) -> (r: String)
    ensures
        match configured {
            Some(c) => r@ == c@,
            None => r@ == DEFAULT_BIND_ADDR@,
        },
{
    match configured {
        Some(c) => c,
        None => DEFAULT_BIND_ADDR.to_owned(),
    }
}

/// The first line of `s`: everything before its first line feed.
pub open spec fn first_line(s: Seq<char>) -> Seq<char>
    decreases s.len(),
{
    if s.len() == 0 {
        s
    } else if s[0] == '\n' {
        Seq::empty()
    } else {
        seq![s[0]] + first_line(s.drop_first())
    }
}

/// The whitespace-separated words of `s`, where `cur` is the word being
/// read (`str::split_whitespace`).
pub open spec fn split_words(s: Seq<char>, cur: Seq<char>) -> Seq<Seq<char>>
    decreases s.len(),
{
    if s.len() == 0 {
        if cur.len() == 0 {
            Seq::empty()
        } else {
            seq![cur]
        }
    } else if is_white_space(s[0]) {
        if cur.len() == 0 {
            split_words(s.drop_first(), cur)
        } else {
            seq![cur] + split_words(s.drop_first(), Seq::empty())
        }
    } else {
        split_words(s.drop_first(), cur.push(s[0]))
    }
}

/// The whitespace-separated words of `s`.
pub open spec fn words(s: Seq<char>) -> Seq<Seq<char>> {
    split_words(s, Seq::empty())
}

/// Whether an HTTP response reports success: the second word of its status
/// line is `200`.
pub open spec fn reports_ok(response: Seq<char>) -> bool {
    let w = words(first_line(response));
    w.len() >= 2 && w[1] == "200"@
}

proof fn lemma_first_line_prefix(s: Seq<char>, k: int)
    requires
        0 <= k <= s.len(),
        forall|j: int| 0 <= j < k ==> s[j] != '\n',
        k == s.len() || s[k] == '\n',
    ensures
        first_line(s) == s.subrange(0, k),
    decreases k,
{
    if k == 0 {
        if s.len() == 0 {
            assert(s =~= s.subrange(0, 0));
        }
    } else {
        lemma_first_line_prefix(s.drop_first(), k - 1);
        assert(s.subrange(0, k) =~= seq![s[0]] + s.drop_first().subrange(0, k - 1));
    }
}

/// Whether the characters `w` are `200`.
fn is_200(w: &Vec<char>) -> (r: bool)
    ensures
        r == (w@ == "200"@),
{
    proof {
        reveal_strlit("200");
    }
    let r = w.len() == 3 && w[0] == '2' && w[1] == '0' && w[2] == '0';
    if r {
        assert(w@ =~= "200"@);
    }
    r
}

/// Whether the text of an HTTP response reports success: the status line's
/// second word is `200`. Anything else, an empty response included, does
/// not.
pub fn status_is_ok(response: &str) -> (r: bool)
    ensures
        r == reports_ok(response@),
{
    let v = chars_of(response);
    let mut k: usize = 0;
    while k < v.len() && v[k] != '\n'
        invariant
            v@ == response@,
            k <= v.len(),
            forall|j: int| 0 <= j < k ==> v@[j] != '\n',
        decreases v.len() - k,
    {
        k += 1;
    }
    proof {
        lemma_first_line_prefix(v@, k as int);
    }
    let ghost line = v@.subrange(0, k as int);
    let ghost mut done: Seq<Seq<char>> = Seq::empty();
    let mut count: usize = 0;
    let mut cur: Vec<char> = Vec::new();
    let mut second: Option<Vec<char>> = None;
    let mut i: usize = 0;
    proof {
        assert(line.skip(0) =~= line);
        assert(done + split_words(line, cur@) =~= split_words(line, Seq::empty()));
    }
    while i < k
        invariant
            v@ == response@,
            k <= v.len(),
            line == v@.subrange(0, k as int),
            i <= k,
            words(line) == done + split_words(line.skip(i as int), cur@),
            count == done.len(),
            count <= i,
            count >= 2 ==> (second matches Some(w) && w@ == done[1]),
            count < 2 ==> second is None,
        decreases k - i,
    {
        let c = v[i];
        let ghost rest = line.skip(i as int);
        proof {
            assert(rest[0] == c);
            assert(rest.drop_first() =~= line.skip(i + 1));
        }
        if crate::text::is_space(c) {
            if cur.len() > 0 {
                proof {
                    assert(done + split_words(rest, cur@) =~= done.push(cur@) + split_words(
                        line.skip(i + 1),
                        Seq::empty(),
                    ));
                    done = done.push(cur@);
                }
                if count == 1 {
                    second = Some(cur);
                }
                count = count + 1;
                cur = Vec::new();
            }
        } else {
            cur.push(c);
        }
        i += 1;
    }
    proof {
        assert(line.skip(k as int) =~= Seq::<char>::empty());
    }
    match second {
        Some(w) => is_200(&w),
        None => {
            if count == 1 && cur.len() > 0 {
                proof {
                    assert(words(line) =~= done.push(cur@));
                }
                is_200(&cur)
            } else {
                false
            }
        },
    }
}

} // verus!
