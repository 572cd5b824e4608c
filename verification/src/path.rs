//! Paths as plain values.
//!
//! The pipelines resolve, join and check paths; so that every one of
//! those rules can be stated in a contract, a path is kept as its list
//! of segments together with an absolute flag, and viewed as a
//! [`PathView`].

use vstd::prelude::*;

verus! {

/// The abstract value of a [`DirPath`].
pub struct PathView {
    pub abs: bool,
    pub segs: Seq<Seq<char>>,
}

/// A filesystem path kept as plain segments: an absolute flag and the
/// segments in order, with no empty segments stored.
#[derive(Debug)]
pub struct DirPath {
    /// Whether the path is absolute.
    pub abs: bool,
    /// The path's segments, in order.
    pub segs: Vec<String>,
}

impl View for DirPath {
    type V = PathView;

    open spec fn view(&self) -> PathView {
        PathView { abs: self.abs, segs: self.segs.deep_view() }
    }
}

impl DeepView for DirPath {
    type V = PathView;

    open spec fn deep_view(&self) -> PathView {
        self@
    }
}

impl Clone for DirPath {
    fn clone(&self) -> (r: Self)
        ensures
            r@ == self@,
    {
        let segs = self.segs.clone();
        proof {
            assert(segs.deep_view() =~= self.segs.deep_view());
        }
        DirPath { abs: self.abs, segs }
    }
}

impl DirPath {
    /// An empty path.
    pub fn empty(abs: bool) -> (r: Self)
        ensures
            r@.abs == abs,
            r@.segs == Seq::<Seq<char>>::empty(),
    {
        let r = DirPath { abs, segs: Vec::new() };
        proof {
            assert(r@.segs =~= Seq::<Seq<char>>::empty());
        }
        r
    }

    /// Appends one segment.
    pub fn push_seg(&mut self, seg: String)
        ensures
            final(self)@.abs == old(self)@.abs,
            final(self)@.segs == old(self)@.segs.push(seg@),
    {
        self.segs.push(seg);
        proof {
            assert(self@.segs =~= old(self)@.segs.push(seg@));
        }
    }

    /// The last segment, if there is one.
    pub fn last_seg(&self) -> (r: Option<&String>)
        ensures
            match r {
                Some(s) => self@.segs.len() > 0 && s@ == self@.segs.last(),
                None => self@.segs.len() == 0,
            },
    {
        if self.segs.len() == 0 {
            None
        } else {
            Some(&self.segs[self.segs.len() - 1])
        }
    }

    /// True when the two paths have the same value.
    pub fn same_as(&self, other: &DirPath) -> (r: bool)
        ensures
            r == (self@ == other@),
    {
        if self.abs != other.abs {
            proof {
                assert(self@ != other@);
            }
            return false;
        }
        if self.segs.len() != other.segs.len() {
            proof {
                assert(self@.segs.len() != other@.segs.len());
            }
            return false;
        }
        let n = self.segs.len();
        let mut i: usize = 0;
        while i < n
            invariant
                n == self.segs.len(),
                n == other.segs.len(),
                i <= n,
                forall|k: int| 0 <= k < i ==> self@.segs[k] == other@.segs[k],
            decreases n - i,
        {
            if !str_eq(self.segs[i].as_str(), other.segs[i].as_str()) {
                proof {
                    assert(self@.segs[i as int] != other@.segs[i as int]);
                }
                return false;
            }
            i += 1;
        }
        proof {
            assert(self@.segs =~= other@.segs);
        }
        true
    }

    /// Joins a relative path onto this one; an absolute `rel` replaces
    /// this path entirely, as a filesystem join does.
    pub fn join(&self, rel: &DirPath) -> (r: DirPath)
        ensures
            r@ == path_join(self@, rel@),
    {
        if rel.abs {
            rel.clone()
        } else {
            let mut out = self.clone();
            let mut i: usize = 0;
            while i < rel.segs.len()
                invariant
                    i <= rel.segs.len(),
                    out@.abs == self@.abs,
                    out@.segs == self@.segs + rel@.segs.take(i as int),
                decreases rel.segs.len() - i,
            {
                let seg = rel.segs[i].clone();
                proof {
                    assert(seg@ == rel@.segs[i as int]);
                }
                out.push_seg(seg);
                proof {
                    assert(out@.segs =~= self@.segs + rel@.segs.take(i as int + 1));
                }
                i += 1;
            }
            proof {
                assert(rel@.segs.take(rel@.segs.len() as int) =~= rel@.segs);
            }
            out
        }
    }
}

impl DirPath {
    /// Builds the path an `href` attribute denotes: the parts between
    /// `'/'` separators become segments, a leading `'/'` makes the path
    /// absolute, and empty parts are dropped.
    pub fn from_href(href: &str) -> (r: DirPath)
        ensures
            r@ == href_path(href@),
    {
        let n = href.unicode_len();
        let abs = n > 0 && href.get_char(0) == '/';
        let mut segs: Vec<String> = Vec::new();
        let mut cur = String::new();
        let mut i: usize = 0;
        proof {
            assert(href@.skip(0) =~= href@);
            assert(segs.deep_view() + split_segs(href@, Seq::<char>::empty()) =~= split_segs(
                href@,
                Seq::<char>::empty(),
            ));
        }
        while i < n
            invariant
                i <= n,
                n == href@.len(),
                segs.deep_view() + split_segs(href@.skip(i as int), cur@) == split_segs(
                    href@,
                    Seq::<char>::empty(),
                ),
            decreases n - i,
        {
            let ghost rest = href@.skip(i as int);
            let c = href.get_char(i);
            proof {
                assert(rest[0] == href@[i as int]);
                assert(rest.drop_first() =~= href@.skip(i as int + 1));
            }
            if c == '/' {
                if cur.as_str().unicode_len() > 0 {
                    let ghost segs0 = segs.deep_view();
                    let ghost cur0 = cur@;
                    segs.push(cur);
                    cur = String::new();
                    proof {
                        assert(split_segs(rest, cur0) == seq![cur0] + split_segs(
                            rest.drop_first(),
                            Seq::<char>::empty(),
                        ));
                        assert(segs.deep_view() =~= segs0.push(cur0));
                        assert(segs0 + (seq![cur0] + split_segs(rest.drop_first(), cur@)) =~= segs0.push(
                            cur0,
                        ) + split_segs(rest.drop_first(), cur@));
                    }
                } else {
                    proof {
                        assert(cur@ =~= Seq::<char>::empty());
                        assert(split_segs(rest, cur@) == split_segs(
                            rest.drop_first(),
                            Seq::<char>::empty(),
                        ));
                    }
                }
            } else {
                let piece = href.substring_char(i, i + 1);
                let ghost cur0 = cur@;
                cur.append(piece);
                proof {
                    assert(cur@ =~= cur0.push(c));
                }
            }
            i += 1;
        }
        proof {
            assert(href@.skip(n as int) =~= Seq::<char>::empty());
        }
        if cur.as_str().unicode_len() > 0 {
            let ghost segs0 = segs.deep_view();
            let ghost cur0 = cur@;
            segs.push(cur);
            proof {
                assert(segs.deep_view() =~= segs0.push(cur0));
                assert(segs0 + seq![cur0] =~= segs0.push(cur0));
            }
        } else {
            proof {
                assert(segs.deep_view() + Seq::<Seq<char>>::empty() =~= segs.deep_view());
            }
        }
        let r = DirPath { abs, segs };
        proof {
            assert(r@ == href_path(href@));
        }
        r
    }

    /// Joins `rel` under `self` while refusing to leave `self`: `None`
    /// when `rel` is absolute or a `..` climbs out of `self`.
    pub fn join_within(&self, rel: &DirPath) -> (r: Option<DirPath>)
        ensures
            match join_within_spec(self@, rel@) {
                Some(pv) => r matches Some(p) && p@ == pv,
                None => r is None,
            },
    {
        if rel.abs {
            return None;
        }
        let mut sfx: Vec<String> = Vec::new();
        let mut i: usize = 0;
        proof {
            assert(rel@.segs.skip(0) =~= rel@.segs);
            assert(sfx.deep_view() =~= Seq::<Seq<char>>::empty());
        }
        while i < rel.segs.len()
            invariant
                i <= rel.segs.len(),
                rel@.abs == false,
                rel@.segs.len() == rel.segs.len(),
                norm_segs(sfx.deep_view(), rel@.segs.skip(i as int)) == norm_segs(
                    Seq::<Seq<char>>::empty(),
                    rel@.segs,
                ),
            decreases rel.segs.len() - i,
        {
            let ghost rest = rel@.segs.skip(i as int);
            proof {
                assert(rest[0] == rel@.segs[i as int]);
                assert(rest.drop_first() =~= rel@.segs.skip(i as int + 1));
            }
            let seg = &rel.segs[i];
            if str_eq(seg.as_str(), ".") {
            } else if str_eq(seg.as_str(), "..") {
                if sfx.len() == 0 {
                    proof {
                        assert(sfx.deep_view() =~= Seq::<Seq<char>>::empty());
                    }
                    return None;
                }
                let ghost sfx0 = sfx.deep_view();
                sfx.pop();
                proof {
                    assert(sfx.deep_view() =~= sfx0.drop_last());
                }
            } else {
                let ghost sfx0 = sfx.deep_view();
                sfx.push(seg.clone());
                proof {
                    assert(sfx.deep_view() =~= sfx0.push(rel@.segs[i as int]));
                }
            }
            i += 1;
        }
        proof {
            assert(rel@.segs.skip(rel.segs.len() as int) =~= Seq::<Seq<char>>::empty());
        }
        let out = self.join(
            &DirPath { abs: false, segs: sfx },
        );
        Some(out)
    }
}

/// A destination computed by [`join_within_spec`] stays inside the
/// base: it keeps the base's kind and the base's segments as a prefix.
pub proof fn lemma_join_within_inside(base: PathView, rel: PathView)
    ensures
        join_within_spec(base, rel) matches Some(pv) ==> pv.abs == base.abs && pv.segs.len()
            >= base.segs.len() && pv.segs.take(base.segs.len() as int) == base.segs,
{
    if join_within_spec(base, rel) is Some {
        match norm_segs(Seq::<Seq<char>>::empty(), rel.segs) {
            Some(sfx) => {
                assert((base.segs + sfx).take(base.segs.len() as int) =~= base.segs);
            },
            None => {},
        }
    }
}

/// The segments of `s` split on `'/'`, empty parts dropped; `cur` is
/// the part gathered so far.
pub open spec fn split_segs(s: Seq<char>, cur: Seq<char>) -> Seq<Seq<char>>
    decreases s.len(),
{
    if s.len() == 0 {
        if cur.len() == 0 {
            Seq::empty()
        } else {
            seq![cur]
        }
    } else if s[0] == '/' {
        if cur.len() == 0 {
            split_segs(s.drop_first(), Seq::empty())
        } else {
            seq![cur] + split_segs(s.drop_first(), Seq::empty())
        }
    } else {
        split_segs(s.drop_first(), cur.push(s[0]))
    }
}

/// The path an `href` attribute denotes.
pub open spec fn href_path(s: Seq<char>) -> PathView {
    PathView { abs: s.len() > 0 && s[0] == '/', segs: split_segs(s, Seq::empty()) }
}

/// The destination segments a target path denotes under a base: `.`
/// parts are dropped, `..` pops the most recent segment, and a `..`
/// with nothing left to pop escapes.
pub open spec fn norm_segs(acc: Seq<Seq<char>>, rest: Seq<Seq<char>>) -> Option<Seq<Seq<char>>>
    decreases rest.len(),
{
    if rest.len() == 0 {
        Some(acc)
    } else if rest[0] == "."@ {
        norm_segs(acc, rest.drop_first())
    } else if rest[0] == ".."@ {
        if acc.len() == 0 {
            None
        } else {
            norm_segs(acc.drop_last(), rest.drop_first())
        }
    } else {
        norm_segs(acc.push(rest[0]), rest.drop_first())
    }
}

/// Where a target path lands inside a base directory: `None` when the
/// target is absolute or climbs out of the base.
pub open spec fn join_within_spec(base: PathView, rel: PathView) -> Option<PathView> {
    if rel.abs {
        None
    } else {
        match norm_segs(Seq::empty(), rel.segs) {
            None => None,
            Some(sfx) => Some(PathView { abs: base.abs, segs: base.segs + sfx }),
        }
    }
}

/// What [`DirPath::join`] returns.
pub open spec fn path_join(base: PathView, rel: PathView) -> PathView {
    if rel.abs {
        rel
    } else {
        PathView { abs: base.abs, segs: base.segs + rel.segs }
    }
}

/// True when the two string slices hold the same characters.
pub fn str_eq(a: &str, b: &str) -> (r: bool)
    ensures
        r == (a@ == b@),
{
    let sa = a.to_owned();
    let sb = b.to_owned();
    sa == sb
}

} // verus!
