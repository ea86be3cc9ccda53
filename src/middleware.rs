//! Request identity and the path labels of request telemetry.

use vstd::prelude::*;
use vstd::string::*;
use crate::text::same_text;

verus! {

/// Identifies one request across logs and the error body.
#[derive(Debug, Clone)]
pub struct CorrelationId(pub String);

impl CorrelationId {
    /// The identifier the client sent, else a freshly generated one.
    pub fn from_header(header: Option<&str>, fresh: String) -> (r: CorrelationId)
        ensures
            match header {
                Some(h) => r.0@ == h@,
                None => r.0@ == fresh@,
            },
    {
        match header {
            Some(h) => CorrelationId(String::from_str(h)),
            None => CorrelationId(fresh),
        }
    }
}

/// The pieces of a text between slashes (one more than there are slashes).
pub open spec fn split_slash(s: Seq<char>) -> Seq<Seq<char>>
    decreases s.len(),
{
    if s.len() == 0 {
        seq![Seq::empty()]
    } else {
        let init = split_slash(s.drop_last());
        if s.last() == '/' {
            init.push(Seq::empty())
        } else {
            init.update(init.len() - 1, init.last().push(s.last()))
        }
    }
}

pub proof fn lemma_split_nonempty(s: Seq<char>)
    ensures
        split_slash(s).len() >= 1,
    decreases s.len(),
{
    if s.len() > 0 {
        lemma_split_nonempty(s.drop_last());
    }
}

/// What the `i`-th piece becomes: an empty piece survives only at either end, and a
/// piece after `zone` or `country` is an identifier.
pub open spec fn kept(parts: Seq<Seq<char>>, i: int) -> Option<Seq<char>> {
    if parts[i].len() == 0 {
        if i == 0 || i == parts.len() - 1 {
            Some(parts[i])
        } else {
            None
        }
    } else if i > 0 && (parts[i - 1] == "zone"@ || parts[i - 1] == "country"@) {
        Some(":id"@)
    } else {
        Some(parts[i])
    }
}

pub open spec fn kept_upto(parts: Seq<Seq<char>>, k: int) -> Seq<Seq<char>>
    decreases k,
{
    if k <= 0 {
        Seq::empty()
    } else {
        let r = kept_upto(parts, k - 1);
        match kept(parts, k - 1) {
            Some(p) => r.push(p),
            None => r,
        }
    }
}

pub open spec fn join_slash(items: Seq<Seq<char>>) -> Seq<char>
    decreases items.len(),
{
    if items.len() == 0 {
        Seq::empty()
    } else if items.len() == 1 {
        items[0]
    } else {
        join_slash(items.drop_last()) + "/"@ + items.last()
    }
}

pub open spec fn normalized_path(path: Seq<char>) -> Seq<char> {
    join_slash(kept_upto(split_slash(path), split_slash(path).len() as int))
}

pub open spec fn views(v: Seq<String>) -> Seq<Seq<char>> {
    v.map_values(|s: String| s@)
}

/// The pieces of a path between slashes.
fn split_path(path: &str) -> (r: Vec<String>)
    ensures
        views(r@) == split_slash(path@),
{
    let n = path.unicode_len();
    let mut parts: Vec<String> = Vec::new();
    let mut current = String::new();
    let mut i: usize = 0;
    proof {
        assert(path@.subrange(0, 0) =~= Seq::<char>::empty());
        assert(views(parts@).push(current@) =~= seq![Seq::<char>::empty()]);
    }
    while i < n
        invariant
            n == path@.len(),
            i <= n,
            views(parts@).push(current@) == split_slash(path@.subrange(0, i as int)),
        decreases n - i,
    {
        let c = path.get_char(i);
        let ghost pre = path@.subrange(0, i as int);
        proof {
            assert(path@.subrange(0, i + 1).drop_last() == pre);
            assert(path@.subrange(0, i + 1).last() == c);
            lemma_split_nonempty(pre);
        }
        let ghost old_parts = parts@;
        let ghost old_current = current@;
        if c == '/' {
            let done = current;
            parts.push(done);
            current = String::new();
            proof {
                assert(views(parts@) =~= views(old_parts).push(old_current));
                assert(views(parts@).push(current@) =~= split_slash(pre).push(Seq::empty()));
            }
        } else {
            let piece = path.substring_char(i, i + 1);
            current.append(piece);
            proof {
                assert(piece@ =~= seq![c]);
                let sp = split_slash(pre);
                assert(sp == views(old_parts).push(old_current));
                assert(current@ =~= old_current.push(c));
                assert(sp.update(sp.len() - 1, sp.last().push(c)) =~= views(old_parts).push(old_current.push(c)));
                assert(views(parts@).push(current@) =~= sp.update(sp.len() - 1, sp.last().push(c)));
            }
        }
        i = i + 1;
    }
    proof {
        assert(path@.subrange(0, n as int) == path@);
    }
    let ghost old_parts = parts@;
    let ghost last = current@;
    parts.push(current);
    proof {
        assert(views(parts@) =~= views(old_parts).push(last));
    }
    parts
}

/// The path label of a request: empty pieces dropped except at either end, and
/// the piece after `zone` or `country` replaced by `:id`.
pub fn normalize_path(path: &str) -> (r: String)
    ensures
        r@ == normalized_path(path@),
{
    let parts = split_path(path);
    let ghost ps = views(parts@);
    let n = parts.len();
    proof {
        reveal_strlit("zone");
        reveal_strlit("country");
        reveal_strlit(":id");
        reveal_strlit("/");
    }
    let mut out = String::new();
    let mut emitted: usize = 0;
    let mut i: usize = 0;
    while i < n
        invariant
            n == parts@.len() == ps.len(),
            ps == views(parts@),
            i <= n,
            emitted == kept_upto(ps, i as int).len(),
            emitted <= i,
            out@ == join_slash(kept_upto(ps, i as int)),
        decreases n - i,
    {
        let part = parts[i].as_str();
        let ghost k = kept(ps, i as int);
        let piece: Option<&str> = if part.unicode_len() == 0 {
            if i == 0 || i == n - 1 {
                Some(part)
            } else {
                None
            }
        } else if i > 0 && (same_text(parts[i - 1].as_str(), "zone") || same_text(
            parts[i - 1].as_str(),
            "country",
        )) {
            Some(":id")
        } else {
            Some(part)
        };
        proof {
            assert(ps[i as int] == parts@[i as int]@);
            if i > 0 {
                assert(ps[i - 1] == parts@[i - 1]@);
            }
        }
        match piece {
            Some(p) => {
                proof {
                    assert(k == Some(p@));
                    let prev = kept_upto(ps, i as int);
                    assert(kept_upto(ps, i + 1) == prev.push(p@));
                    assert(prev.push(p@).drop_last() == prev);
                    if prev.len() == 0 {
                        assert(join_slash(prev.push(p@)) == p@);
                    }
                }
                if emitted > 0 {
                    out.append("/");
                }
                out.append(p);
                emitted = emitted + 1;
            },
            None => {
                assert(k is None);
            },
        }
        i = i + 1;
    }
    out
}

} // verus!
