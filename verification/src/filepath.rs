//! File paths compared component by component, as the standard library
//! compares paths on Unix: repeated slashes, a trailing slash and `.`
//! parts other than the leading part of a relative path do not count.

use crate::text::chars_of;
use vstd::prelude::*;

verus! {

/// The parts of `s` between slashes, in order, empty parts included.
pub open spec fn segments(s: Seq<char>) -> Seq<Seq<char>>
    decreases s.len(),
{
    if s.len() == 0 {
        seq![Seq::<char>::empty()]
    } else {
        let r = segments(s.drop_last());
        if s.last() == '/' {
            r.push(Seq::<char>::empty())
        } else {
            r.update(r.len() - 1, r.last().push(s.last()))
        }
    }
}

/// Whether a part between slashes names a component: empty parts (from
/// repeated or trailing slashes) and `.` parts do not.
pub open spec fn names_component(seg: Seq<char>) -> bool {
    seg.len() > 0 && seg != seq!['.']
}

/// The parts of `segs` that name components, in order.
pub open spec fn named(segs: Seq<Seq<char>>) -> Seq<Seq<char>>
    decreases segs.len(),
{
    if segs.len() == 0 {
        Seq::empty()
    } else {
        let r = named(segs.drop_last());
        if names_component(segs.last()) {
            r.push(segs.last())
        } else {
            r
        }
    }
}

/// The components of path `s`: `/` for a leading slash, or `.` when a
/// relative path starts with a `.` part, then the parts that name
/// components.
pub open spec fn components(s: Seq<char>) -> Seq<Seq<char>> {
    let lead = if s.len() > 0 && s[0] == '/' {
        seq![seq!['/']]
    } else if segments(s)[0] == seq!['.'] {
        seq![seq!['.']]
    } else {
        Seq::empty()
    };
    lead + named(segments(s))
}

/// Whether `a` and `b` name the same path, component by component.
pub open spec fn same_path(a: Seq<char>, b: Seq<char>) -> bool {
    components(a) == components(b)
}

/// The character sequences held by `v`.
pub open spec fn char_views(v: Seq<Vec<char>>) -> Seq<Seq<char>> {
    v.map_values(|x: Vec<char>| x@)
}

proof fn lemma_segments_nonempty(s: Seq<char>)
    ensures
        segments(s).len() >= 1,
    decreases s.len(),
{
    if s.len() > 0 {
        lemma_segments_nonempty(s.drop_last());
    }
}

/// Whether `v` holds exactly the one character `.`.
fn is_dot(v: &Vec<char>) -> (r: bool)
    ensures
        r == (v@ == seq!['.']),
{
    let r = v.len() == 1 && v[0] == '.';
    proof {
        if v@.len() == 1 && v@[0] == '.' {
            assert(v@ =~= seq!['.']);
        }
    }
    r
}

/// The components of path `s`, as [`components`] gives them.
pub fn path_components(s: &str) -> (r: Vec<Vec<char>>)
    ensures
        char_views(r@) == components(s@),
{
    let cs = chars_of(s);
    let mut parts: Vec<Vec<char>> = Vec::new();
    let mut cur: Vec<char> = Vec::new();
    let mut seen_slash = false;
    let mut first_dot = false;
    let ghost mut done: Seq<Seq<char>> = Seq::empty();
    let mut i: usize = 0;
    proof {
        assert(cs@.take(0) =~= Seq::<char>::empty());
        assert(segments(cs@.take(0)) =~= done.push(cur@));
        assert(char_views(parts@) =~= named(done));
    }
    while i < cs.len()
        invariant
            i <= cs@.len(),
            cs@ == s@,
            segments(cs@.take(i as int)) == done.push(cur@),
            char_views(parts@) == named(done),
            seen_slash == (done.len() > 0),
            done.len() > 0 ==> first_dot == (done[0] == seq!['.']),
        decreases cs@.len() - i,
    {
        let c = cs[i];
        proof {
            assert(cs@.take(i + 1).drop_last() =~= cs@.take(i as int));
            assert(cs@.take(i + 1).last() == c);
        }
        if c == '/' {
            let dot = is_dot(&cur);
            if !seen_slash {
                first_dot = dot;
                seen_slash = true;
            }
            let ghost old_cur = cur@;
            let ghost old_parts = parts@;
            if cur.len() > 0 && !dot {
                parts.push(cur);
                proof {
                    assert(char_views(parts@) =~= char_views(old_parts).push(old_cur));
                }
            }
            cur = Vec::new();
            proof {
                assert(done.push(old_cur).drop_last() =~= done);
                if done.len() > 0 {
                    assert(done.push(old_cur)[0] == done[0]);
                }
                done = done.push(old_cur);
                assert(segments(cs@.take(i + 1)) =~= done.push(cur@));
            }
        } else {
            let ghost old_cur = cur@;
            cur.push(c);
            proof {
                let r = done.push(old_cur);
                assert(r.update(r.len() - 1, old_cur.push(c)) =~= done.push(cur@));
            }
        }
        i = i + 1;
    }
    proof {
        assert(cs@.take(cs@.len() as int) =~= cs@);
        assert(done.push(cur@).drop_last() =~= done);
    }
    let lead_dot = if seen_slash {
        first_dot
    } else {
        is_dot(&cur)
    };
    let ghost last_cur = cur@;
    let ghost named_done = parts@;
    if cur.len() > 0 && !is_dot(&cur) {
        parts.push(cur);
        proof {
            assert(char_views(parts@) =~= char_views(named_done).push(last_cur));
        }
    }
    let mut out: Vec<Vec<char>> = Vec::new();
    if cs.len() > 0 && cs[0] == '/' {
        let mut root: Vec<char> = Vec::new();
        root.push('/');
        out.push(root);
    } else if lead_dot {
        let mut dot: Vec<char> = Vec::new();
        dot.push('.');
        out.push(dot);
    }
    let ghost lead = out@;
    let ghost tail = parts@;
    out.append(&mut parts);
    proof {
        let segs = done.push(last_cur);
        assert(segs[0] == (if done.len() > 0 {
            done[0]
        } else {
            last_cur
        }));
        assert(char_views(lead) =~= (if cs@.len() > 0 && cs@[0] == '/' {
            seq![seq!['/']]
        } else if segs[0] == seq!['.'] {
            seq![seq!['.']]
        } else {
            Seq::<Seq<char>>::empty()
        }));
        assert(char_views(out@) =~= char_views(lead) + char_views(tail));
    }
    out
}

/// Whether `a` and `b` hold the same characters.
fn chars_equal(a: &Vec<char>, b: &Vec<char>) -> (r: bool)
    ensures
        r == (a@ == b@),
{
    if a.len() != b.len() {
        return false;
    }
    let mut i: usize = 0;
    while i < a.len()
        invariant
            i <= a@.len(),
            a@.len() == b@.len(),
            forall|j: int| 0 <= j < i ==> a@[j] == b@[j],
        decreases a@.len() - i,
    {
        if a[i] != b[i] {
            return false;
        }
        i = i + 1;
    }
    proof {
        assert(a@ =~= b@);
    }
    true
}

/// Whether paths `a` and `b` are the same path, component by component.
pub fn same_path_text(a: &str, b: &str) -> (r: bool)
    ensures
        r == same_path(a@, b@),
{
    let ca = path_components(a);
    let cb = path_components(b);
    if ca.len() != cb.len() {
        proof {
            assert(char_views(ca@).len() != char_views(cb@).len());
        }
        return false;
    }
    let mut i: usize = 0;
    while i < ca.len()
        invariant
            i <= ca@.len(),
            ca@.len() == cb@.len(),
            char_views(ca@) == components(a@),
            char_views(cb@) == components(b@),
            forall|j: int| 0 <= j < i ==> ca@[j]@ == cb@[j]@,
        decreases ca@.len() - i,
    {
        if !chars_equal(&ca[i], &cb[i]) {
            proof {
                assert(char_views(ca@)[i as int] == ca@[i as int]@);
                assert(char_views(cb@)[i as int] == cb@[i as int]@);
                assert(char_views(ca@)[i as int] != char_views(cb@)[i as int]);
            }
            return false;
        }
        i = i + 1;
    }
    proof {
        assert(char_views(ca@) =~= char_views(cb@));
    }
    true
}

} // verus!
