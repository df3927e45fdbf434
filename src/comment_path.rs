//! Dotted ancestor paths of comments, such as `0.55.203`.
use vstd::prelude::*;

verus! {

/// What has been read of a path so far: the finished ids, and the value of
/// the segment being read (`None` while that segment is empty).
pub struct PathScan {
    pub ids: Seq<i32>,
    pub current: Option<int>,
}

pub open spec fn is_digit(c: char) -> bool {
    '0' <= c && c <= '9'
}

pub open spec fn digit_value(c: char) -> int {
    c as int - '0' as int
}

/// Reads one more character of a path: a digit extends the current segment,
/// a dot ends it; an empty segment, any other character or an id beyond
/// `i32::MAX` makes the path malformed.
pub open spec fn scan_step(st: PathScan, c: char) -> Option<PathScan> {
    if c == '.' {
        match st.current {
            Some(v) => Some(PathScan { ids: st.ids.push(v as i32), current: None }),
            None => None,
        }
    } else if is_digit(c) {
        let before = match st.current {
            Some(v) => v,
            None => 0,
        };
        let v = before * 10 + digit_value(c);
        if v <= i32::MAX {
            Some(PathScan { ids: st.ids, current: Some(v) })
        } else {
            None
        }
    } else {
        None
    }
}

/// Reads a path from left to right.
pub open spec fn scan_path(s: Seq<char>) -> Option<PathScan>
    decreases s.len(),
{
    if s.len() == 0 {
        Some(PathScan { ids: Seq::empty(), current: None })
    } else {
        match scan_path(s.drop_last()) {
            Some(st) => scan_step(st, s.last()),
            None => None,
        }
    }
}

/// The ids of a well-formed path: non-empty decimal segments separated by dots.
pub open spec fn path_ids(s: Seq<char>) -> Option<Seq<i32>> {
    match scan_path(s) {
        Some(st) => match st.current {
            Some(v) => Some(st.ids.push(v as i32)),
            None => None,
        },
        None => None,
    }
}

/// The chain of ancestor ids of a comment, shallowest first: the path
/// without its root marker and without the comment's own id. `None` for a
/// malformed path or one with fewer than two segments.
pub open spec fn ancestors_of(s: Seq<char>) -> Option<Seq<i32>> {
    match path_ids(s) {
        Some(ids) => if ids.len() >= 2 {
            Some(ids.subrange(1, ids.len() - 1))
        } else {
            None
        },
        None => None,
    }
}

/// The depth of a comment: the number of path segments less one.
pub open spec fn path_depth(s: Seq<char>) -> Option<nat> {
    match path_ids(s) {
        Some(ids) => if ids.len() >= 1 {
            Some((ids.len() - 1) as nat)
        } else {
            None
        },
        None => None,
    }
}

proof fn lemma_malformed_stays(s: Seq<char>, i: int)
    requires
        0 <= i <= s.len(),
        scan_path(s.take(i)) is None,
    ensures
        scan_path(s) is None,
    decreases s.len() - i,
{
    if i < s.len() {
        assert(s.take(i + 1).drop_last() =~= s.take(i));
        lemma_malformed_stays(s, i + 1);
    } else {
        assert(s.take(i) =~= s);
    }
}

/// Parses a path into its ids; `None` where it is malformed.
pub fn parse_path(path: &str) -> (r: Option<Vec<i32>>)
    ensures
        match r {
            Some(v) => path_ids(path@) == Some(v@),
            None => path_ids(path@) is None,
        },
{
    let n = path.unicode_len();
    let mut ids: Vec<i32> = Vec::new();
    let mut current: Option<i32> = None;
    let mut i: usize = 0;
    while i < n
        invariant
            n == path@.len(),
            0 <= i <= n,
            current matches Some(v) ==> v >= 0,
            scan_path(path@.take(i as int)) == Some(
                PathScan {
                    ids: ids@,
                    current: match current {
                        Some(v) => Some(v as int),
                        None => None,
                    },
                },
            ),
        decreases n - i,
    {
        let c = path.get_char(i);
        assert(path@.take(i + 1).drop_last() =~= path@.take(i as int));
        assert(path@.take(i + 1).last() == c);
        if c == '.' {
            match current {
                Some(v) => {
                    ids.push(v);
                    current = None;
                },
                None => {
                    proof {
                        lemma_malformed_stays(path@, i + 1);
                    }
                    return None;
                },
            }
        } else if '0' <= c && c <= '9' {
            let before: i64 = match current {
                Some(v) => v as i64,
                None => 0,
            };
            let v: i64 = before * 10 + (c as u32 - '0' as u32) as i64;
            assert(v == before * 10 + digit_value(c));
            if v <= i32::MAX as i64 {
                current = Some(v as i32);
            } else {
                proof {
                    lemma_malformed_stays(path@, i + 1);
                }
                return None;
            }
        } else {
            proof {
                lemma_malformed_stays(path@, i + 1);
            }
            return None;
        }
        i = i + 1;
    }
    assert(path@.take(n as int) =~= path@);
    match current {
        Some(v) => {
            ids.push(v);
            Some(ids)
        },
        None => None,
    }
}

/// The ancestor chain of a path, shallowest first, without the root marker
/// and the comment's own id; `None` for a malformed path or a single segment.
pub fn ancestor_chain(path: &str) -> (r: Option<Vec<i32>>)
    ensures
        match r {
            Some(v) => ancestors_of(path@) == Some(v@),
            None => ancestors_of(path@) is None,
        },
{
    match parse_path(path) {
        Some(ids) => {
            if ids.len() >= 2 {
                let mut chain: Vec<i32> = Vec::new();
                let mut i: usize = 1;
                while i < ids.len() - 1
                    invariant
                        ids.len() >= 2,
                        1 <= i <= ids.len() - 1,
                        chain@ =~= ids@.subrange(1, i as int),
                    decreases ids.len() - i,
                {
                    chain.push(ids[i]);
                    i = i + 1;
                }
                Some(chain)
            } else {
                None
            }
        },
        None => None,
    }
}

} // verus!
