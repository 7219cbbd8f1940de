//! Safe handling of archive-internal entry paths. An entry name is reduced
//! to its normalized path segments; names that would escape the extraction
//! root (absolute paths, more `..` than preceding segments, NUL bytes) are
//! rejected. Both slashes count as separators, since the joined path may be
//! read as a Windows path, and a colon is rejected outright so that no
//! segment can carry a drive prefix.

use vstd::prelude::*;
use vstd::string::StrSliceExecFns;

verus! {

/// The state of the segment scan: the normalized segments seen so far and
/// the characters of the segment being read.
pub ghost struct SegState {
    pub failed: bool,
    pub done: Seq<Seq<char>>,
    pub cur: Seq<char>,
}

pub open spec fn seg_init() -> SegState {
    SegState { failed: false, done: Seq::empty(), cur: Seq::empty() }
}

/// Ends the segment being read: empty and `.` segments disappear, `..` pops
/// the latest segment (failing when there is none), anything else is kept.
pub open spec fn close_segment(st: SegState) -> SegState {
    if st.failed {
        st
    } else if st.cur.len() == 0 || (st.cur.len() == 1 && st.cur[0] == '.') {
        SegState { failed: false, done: st.done, cur: Seq::empty() }
    } else if st.cur.len() == 2 && st.cur[0] == '.' && st.cur[1] == '.' {
        if st.done.len() == 0 {
            SegState { failed: true, done: st.done, cur: Seq::empty() }
        } else {
            SegState { failed: false, done: st.done.drop_last(), cur: Seq::empty() }
        }
    } else {
        SegState { failed: false, done: st.done.push(st.cur), cur: Seq::empty() }
    }
}

/// One character of the scan: NUL and the drive-prefix colon fail, either
/// slash ends the segment, any other character extends it.
pub open spec fn seg_step(st: SegState, c: char) -> SegState {
    if st.failed {
        st
    } else if c == '\u{0}' || c == ':' {
        SegState { failed: true, done: st.done, cur: st.cur }
    } else if c == '/' || c == '\\' {
        close_segment(st)
    } else {
        SegState { failed: st.failed, done: st.done, cur: st.cur.push(c) }
    }
}

/// The scan folded over a whole name.
pub open spec fn seg_fold(s: Seq<char>) -> SegState
    decreases s.len(),
{
    if s.len() == 0 {
        seg_init()
    } else {
        seg_step(seg_fold(s.drop_last()), s.last())
    }
}

/// The normalized segments of an entry name, or nothing when the name is
/// empty, absolute, holds a NUL or a colon, climbs above its root, or
/// normalizes to no segment at all.
pub open spec fn enclosed_model(s: Seq<char>) -> Option<Seq<Seq<char>>> {
    if s.len() == 0 || s[0] == '/' || s[0] == '\\' {
        None
    } else {
        let st = close_segment(seg_fold(s));
        if st.failed || st.done.len() == 0 {
            None
        } else {
            Some(st.done)
        }
    }
}

/// A path segment that cannot change the directory a write lands in: it is
/// not empty, not `.`, not `..`, and holds no separator of either kind, no
/// drive-prefix colon and no NUL.
pub open spec fn plain_seg(x: Seq<char>) -> bool {
    &&& x.len() > 0
    &&& !(x.len() == 1 && x[0] == '.')
    &&& !(x.len() == 2 && x[0] == '.' && x[1] == '.')
    &&& forall|i: int|
        0 <= i < x.len() ==> x[i] != '/' && x[i] != '\\' && x[i] != ':' && x[i] != '\u{0}'
}

spec fn good_state(st: SegState) -> bool {
    &&& forall|k: int| 0 <= k < st.done.len() ==> plain_seg(#[trigger] st.done[k])
    &&& forall|i: int|
        0 <= i < st.cur.len() ==> st.cur[i] != '/' && st.cur[i] != '\\' && st.cur[i] != ':'
            && st.cur[i] != '\u{0}'
}

proof fn lemma_close_good(st: SegState)
    requires
        good_state(st),
    ensures
        good_state(close_segment(st)),
{
}

proof fn lemma_seg_fold_good(s: Seq<char>)
    ensures
        good_state(seg_fold(s)),
    decreases s.len(),
{
    if s.len() == 0 {
    } else {
        lemma_seg_fold_good(s.drop_last());
        let st = seg_fold(s.drop_last());
        let c = s.last();
        if !st.failed && c != '\u{0}' && c != ':' && (c == '/' || c == '\\') {
            lemma_close_good(st);
        }
    }
}

/// Every segment the scan accepts is plain: an accepted entry name can only
/// name a file strictly inside the directory its segments are joined onto.
pub proof fn lemma_enclosed_segments_plain(s: Seq<char>)
    ensures
        (enclosed_model(s) matches Some(m) ==> m.len() > 0 && forall|k: int|
            0 <= k < m.len() ==> plain_seg(#[trigger] m[k])),
{
    lemma_seg_fold_good(s);
    if s.len() == 0 || s[0] == '/' {
    } else {
        lemma_close_good(seg_fold(s));
    }
}

/// Once the scan has failed it stays failed: a failure on any prefix is a
/// failure of the whole name.
proof fn lemma_fold_failed_persists(s: Seq<char>, i: int)
    requires
        0 <= i <= s.len(),
        seg_fold(s.subrange(0, i)).failed,
    ensures
        seg_fold(s).failed,
    decreases s.len() - i,
{
    if i == s.len() {
        assert(s.subrange(0, i) =~= s);
    } else {
        assert(s.subrange(0, i + 1).drop_last() =~= s.subrange(0, i));
        assert(seg_fold(s.subrange(0, i + 1)).failed);
        lemma_fold_failed_persists(s, i + 1);
    }
}

/// The normalized segments of an archive entry name, or `None` when the
/// name would escape the extraction root or names no file at all.
pub fn enclosed_segments(name: &str) -> (r: Option<Vec<String>>)
    ensures
        r is Some <==> enclosed_model(name@) is Some,
        (r matches Some(v) ==> v@.map_values(|x: String| x@) == enclosed_model(name@)->0),
{
    let n = name.unicode_len();
    if n == 0 {
        return None;
    }
    let first = name.get_char(0);
    if first == '/' || first == '\\' {
        return None;
    }
    let mut done: Vec<String> = Vec::new();
    let mut seg_start: usize = 0;
    let mut i: usize = 0;
    proof {
        assert(name@.subrange(0, 0) =~= Seq::<char>::empty());
        assert(seg_fold(name@.subrange(0, 0)) == seg_init());
        assert(done@.map_values(|x: String| x@) =~= Seq::<Seq<char>>::empty());
    }
    while i < n
        invariant
            n == name@.len(),
            i <= n,
            seg_start <= i,
            !seg_fold(name@.subrange(0, i as int)).failed,
            seg_fold(name@.subrange(0, i as int)).done == done@.map_values(|x: String| x@),
            seg_fold(name@.subrange(0, i as int)).cur == name@.subrange(
                seg_start as int,
                i as int,
            ),
        decreases n - i,
    {
        let ghost pre = seg_fold(name@.subrange(0, i as int));
        proof {
            assert(name@.subrange(0, i as int + 1).drop_last() =~= name@.subrange(0, i as int));
            assert(name@.subrange(0, i as int + 1).last() == name@[i as int]);
        }
        let c = name.get_char(i);
        if c == '\u{0}' || c == ':' {
            proof {
                assert(seg_fold(name@.subrange(0, i as int + 1)).failed);
                lemma_fold_failed_persists(name@, i as int + 1);
            }
            return None;
        } else if c == '/' || c == '\\' {
            let seg_len = i - seg_start;
            if seg_len == 0 || (seg_len == 1 && name.get_char(seg_start) == '.') {
                // empty or `.` segment: nothing to record
            } else if seg_len == 2 && name.get_char(seg_start) == '.' && name.get_char(
                seg_start + 1,
            ) == '.' {
                if done.len() == 0 {
                    proof {
                        assert(pre.done.len() == 0);
                        assert(seg_fold(name@.subrange(0, i as int + 1)).failed);
                        lemma_fold_failed_persists(name@, i as int + 1);
                    }
                    return None;
                }
                done.pop();
                proof {
                    assert(done@.map_values(|x: String| x@) =~= pre.done.drop_last());
                }
            } else {
                let seg = name.substring_char(seg_start, i).to_owned();
                done.push(seg);
                proof {
                    assert(done@.map_values(|x: String| x@) =~= pre.done.push(pre.cur));
                }
            }
            seg_start = i + 1;
            proof {
                assert(name@.subrange(seg_start as int, i as int + 1) =~= Seq::<char>::empty());
            }
        } else {
            proof {
                assert(name@.subrange(seg_start as int, i as int + 1) =~= name@.subrange(
                    seg_start as int,
                    i as int,
                ).push(name@[i as int]));
            }
        }
        i += 1;
    }
    proof {
        assert(name@.subrange(0, n as int) =~= name@);
    }
    let ghost st = seg_fold(name@);
    // close the final segment
    let seg_len = n - seg_start;
    if seg_len == 0 || (seg_len == 1 && name.get_char(seg_start) == '.') {
        // empty or `.` segment: nothing to record
    } else if seg_len == 2 && name.get_char(seg_start) == '.' && name.get_char(seg_start + 1)
        == '.' {
        if done.len() == 0 {
            proof {
                assert(st.done.len() == 0);
                assert(close_segment(st).failed);
            }
            return None;
        }
        done.pop();
        proof {
            assert(done@.map_values(|x: String| x@) =~= st.done.drop_last());
        }
    } else {
        let seg = name.substring_char(seg_start, n).to_owned();
        done.push(seg);
        proof {
            assert(done@.map_values(|x: String| x@) =~= st.done.push(st.cur));
        }
    }
    if done.len() == 0 {
        proof {
            assert(close_segment(st).done.len() == 0);
        }
        return None;
    }
    Some(done)
}

} // verus!
