//! Parsing of requirements files into PEP 508 dependency strings.

use crate::pep508;
use crate::text;
use crate::text::{spec_lines, spec_trim};
use crate::utils::str_views;
use vstd::prelude::*;

verus! {

/// The text before the first ` #` comment marker, or all of it.
pub open spec fn spec_strip_comment(s: Seq<char>) -> Seq<char>
    decreases s.len(),
{
    if s.len() < 2 {
        s
    } else if s[0] == ' ' && s[1] == '#' {
        Seq::empty()
    } else {
        seq![s[0]] + spec_strip_comment(s.drop_first())
    }
}

pub fn strip_comment(s: &Vec<char>) -> (r: Vec<char>)
    ensures
        r@ == spec_strip_comment(s@),
{
    let n = s.len();
    let mut r: Vec<char> = Vec::new();
    let mut i: usize = 0;
    proof {
        assert(s@.skip(0) =~= s@);
        assert(r@ + spec_strip_comment(s@) =~= spec_strip_comment(s@));
    }
    loop
        invariant
            0 <= i <= n,
            n == s@.len(),
            spec_strip_comment(s@) == r@ + spec_strip_comment(s@.skip(i as int)),
        ensures
            r@ == spec_strip_comment(s@),
        decreases n - i,
    {
        if i < n {
            proof {
                assert(s@.skip(i as int).drop_first() =~= s@.skip(i + 1));
            }
            if i + 1 < n {
                if s[i] == ' ' && s[i + 1] == '#' {
                    proof {
                        assert(spec_strip_comment(s@.skip(i as int)) =~= Seq::<char>::empty());
                        assert(r@ + Seq::<char>::empty() =~= r@);
                    }
                    break;
                }
                let ghost old_r = r@;
                r.push(s[i]);
                i += 1;
                proof {
                    assert(s@.skip(i - 1)[0] == s@[i - 1]);
                    assert(old_r + (seq![s@[i - 1]] + spec_strip_comment(s@.skip(i as int)))
                        =~= old_r.push(s@[i - 1]) + spec_strip_comment(s@.skip(i as int)));
                }
            } else {
                let ghost old_r = r@;
                r.push(s[i]);
                i += 1;
                proof {
                    assert(s@.skip(i - 1).len() == 1);
                    assert(s@.skip(i - 1)[0] == s@[i - 1]);
                    assert(spec_strip_comment(s@.skip(i - 1)) == s@.skip(i - 1));
                    assert(s@.skip(i as int) =~= Seq::<char>::empty());
                    assert(old_r + s@.skip(i - 1) =~= old_r.push(s@[i - 1]));
                    assert(r@ + Seq::<char>::empty() =~= r@);
                }
                break;
            }
        } else {
            proof {
                assert(s@.skip(n as int) =~= Seq::<char>::empty());
                assert(r@ + Seq::<char>::empty() =~= r@);
            }
            break;
        }
    }
    r
}

/// What one line of a requirements file contributes when arguments are
/// ignored: nothing for blanks, comments and option lines; otherwise the
/// normalized dependency, or the raw text when it does not parse.
pub open spec fn spec_req_line(
    prev: (Seq<Seq<char>>, Seq<Seq<char>>),
    line: Seq<char>,
) -> (Seq<Seq<char>>, Seq<Seq<char>>) {
    let t = spec_trim(line);
    if t.len() == 0 || t[0] == '#' || t[0] == '-' {
        prev
    } else {
        let d = spec_strip_comment(t);
        if pep508::pep508_ok(d) {
            (prev.0.push(pep508::pep508_normalized(d)), prev.1)
        } else {
            (prev.0, prev.1.push(d))
        }
    }
}

pub open spec fn spec_req_lines(
    init: (Seq<Seq<char>>, Seq<Seq<char>>),
    lines: Seq<Seq<char>>,
) -> (Seq<Seq<char>>, Seq<Seq<char>>)
    decreases lines.len(),
{
    if lines.len() == 0 {
        init
    } else {
        spec_req_line(spec_req_lines(init, lines.drop_last()), lines.last())
    }
}

/// The dependencies and failures of a list of file contents, in order.
pub open spec fn spec_req_contents(contents: Seq<String>) -> (Seq<Seq<char>>, Seq<Seq<char>>)
    decreases contents.len(),
{
    if contents.len() == 0 {
        (Seq::empty(), Seq::empty())
    } else {
        spec_req_lines(
            spec_req_contents(contents.drop_last()),
            spec_lines(contents.last()@),
        )
    }
}

/// Parse requirements-file contents: blank lines, comments and option lines
/// are ignored, trailing comments are cut, every other line must be a PEP 508
/// dependency. The parsed dependencies come back normalized, in order, with
/// the lines that did not parse beside them; an empty harvest is `None`.
pub fn get(contents: &Vec<String>) -> (r: (Option<Vec<String>>, Vec<String>))
    ensures
        ({
            let out = spec_req_contents(contents@);
            &&& (out.0.len() == 0 ==> r.0 is None)
            &&& (out.0.len() > 0 ==> (r.0 matches Some(v) && str_views(v@) == out.0))
            &&& str_views(r.1@) == out.1
        }),
{
    let mut deps: Vec<String> = Vec::new();
    let mut failed: Vec<String> = Vec::new();
    let n = contents.len();
    let mut i: usize = 0;
    proof {
        assert(contents@.take(0) =~= Seq::<String>::empty());
        assert(str_views(deps@) =~= Seq::<Seq<char>>::empty());
        assert(str_views(failed@) =~= Seq::<Seq<char>>::empty());
    }
    while i < n
        invariant
            0 <= i <= n,
            n == contents@.len(),
            ({
                let out = spec_req_contents(contents@.take(i as int));
                str_views(deps@) == out.0 && str_views(failed@) == out.1
            }),
        decreases n - i,
    {
        proof {
            assert(contents@.take(i + 1).drop_last() =~= contents@.take(i as int));
            assert(contents@.take(i + 1).last() == contents@[i as int]);
        }
        let cs = text::chars_of(contents[i].as_str());
        let lines = text::split_lines(&cs);
        let ghost lv = lines.deep_view();
        let m = lines.len();
        let ghost base = (str_views(deps@), str_views(failed@));
        let mut j: usize = 0;
        proof {
            assert(lv.take(0) =~= Seq::<Seq<char>>::empty());
        }
        while j < m
            invariant
                0 <= j <= m,
                m == lines@.len(),
                lv == lines.deep_view(),
                lv.len() == m,
                ({
                    let out = spec_req_lines(base, lv.take(j as int));
                    str_views(deps@) == out.0 && str_views(failed@) == out.1
                }),
            decreases m - j,
        {
            proof {
                assert(lv.take(j + 1).drop_last() =~= lv.take(j as int));
                assert(lv.take(j + 1).last() == lv[j as int]);
                text::lemma_chars_deep_view(&lines@[j as int]);
            }
            let t = text::trim_chars(&lines[j]);
            let skip_line = t.len() == 0 || t[0] == '#' || t[0] == '-';
            if !skip_line {
                let d = strip_comment(&t);
                let ds = text::string_from_chars(&d);
                match pep508::requirement_normalized(ds.as_str()) {
                    Some(norm) => {
                        let ghost old_deps = str_views(deps@);
                        deps.push(norm);
                        proof {
                            assert(str_views(deps@) =~= old_deps.push(
                                pep508::pep508_normalized(d@),
                            ));
                        }
                    },
                    None => {
                        let ghost old_failed = str_views(failed@);
                        failed.push(ds);
                        proof {
                            assert(str_views(failed@) =~= old_failed.push(d@));
                        }
                    },
                }
            }
            j += 1;
        }
        proof {
            assert(lv.take(m as int) =~= lv);
            assert(lv == spec_lines(contents@[i as int]@));
        }
        i += 1;
    }
    proof {
        assert(contents@.take(n as int) =~= contents@);
        assert(str_views(deps@).len() == deps@.len());
    }
    if deps.len() == 0 {
        (None, failed)
    } else {
        (Some(deps), failed)
    }
}

} // verus!
