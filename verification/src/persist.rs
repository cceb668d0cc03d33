//! The newline-delimited text lists that outlive the process: the cumulative
//! known roster and the proxy seed list. Reading splits on newlines — the
//! roster reader stops at the first empty line, the proxy reader skips empty
//! lines — and writing puts one name per line, each followed by a newline.
use vstd::prelude::*;

use crate::names::name_views;

verus! {

/// The newline byte.
pub const NEWLINE: u8 = 10;

/// Index of the first newline byte in `s`, if any.
pub open spec fn find_newline(s: Seq<u8>) -> Option<nat>
    decreases s.len(),
{
    if s.len() == 0 {
        None
    } else if s[0] == NEWLINE {
        Some(0nat)
    } else {
        match find_newline(s.skip(1)) {
            Some(i) => Some((i + 1) as nat),
            None => None,
        }
    }
}

/// The first newline is found.
pub proof fn lemma_find_newline_at(s: Seq<u8>, i: int)
    requires
        0 <= i < s.len(),
        s[i] == NEWLINE,
        forall|k: int| 0 <= k < i ==> s[k] != NEWLINE,
    ensures
        find_newline(s) == Some(i as nat),
    decreases i,
{
    if i > 0 {
        lemma_find_newline_at(s.skip(1), i - 1);
    }
}

/// A text without a newline has none to find.
pub proof fn lemma_find_newline_none(s: Seq<u8>)
    requires
        forall|k: int| 0 <= k < s.len() ==> s[k] != NEWLINE,
    ensures
        find_newline(s) is None,
    decreases s.len(),
{
    if s.len() > 0 {
        lemma_find_newline_none(s.skip(1));
    }
}

/// The lines of `s`, up to but not including the first empty line: how the
/// known-roster file is read.
pub open spec fn lines_until_blank(s: Seq<u8>) -> Seq<Seq<u8>>
    decreases s.len(),
{
    match find_newline(s) {
        None => if s.len() == 0 {
            Seq::empty()
        } else {
            seq![s]
        },
        Some(i) => if i == 0 {
            Seq::empty()
        } else {
            (if i < s.len() {  // always true; keeps the recursion visibly decreasing
                seq![s.take(i as int)] + lines_until_blank(s.skip(i as int + 1))
            } else {
                seq![s.take(i as int)]
            })
        },
    }
}

/// The non-empty lines of `s`: how the proxy seed file is read.
pub open spec fn lines_skip_blank(s: Seq<u8>) -> Seq<Seq<u8>>
    decreases s.len(),
{
    match find_newline(s) {
        None => if s.len() == 0 {
            Seq::empty()
        } else {
            seq![s]
        },
        Some(i) => if i == 0 {
            (if s.len() >= 1 {
                lines_skip_blank(s.skip(1))
            } else {
                Seq::empty()
            })
        } else {
            (if i < s.len() {
                seq![s.take(i as int)] + lines_skip_blank(s.skip(i as int + 1))
            } else {
                seq![s.take(i as int)]
            })
        },
    }
}

/// One name per line, each followed by a newline: how both files are written.
pub open spec fn rendered_lines(names: Seq<Seq<u8>>) -> Seq<u8>
    decreases names.len(),
{
    if names.len() == 0 {
        Seq::empty()
    } else {
        names[0] + seq![NEWLINE] + rendered_lines(names.skip(1))
    }
}

/// Loading undoes saving: a rendered list of names, none empty and none
/// holding a newline, reads back as exactly that list, under either reading
/// rule.
pub proof fn lemma_lines_roundtrip(names: Seq<Seq<u8>>)
    requires
        forall|i: int| #![trigger names[i]]
            0 <= i < names.len() ==> names[i].len() > 0 && (forall|k: int|
                0 <= k < names[i].len() ==> names[i][k] != NEWLINE),
    ensures
        lines_until_blank(rendered_lines(names)) == names,
        lines_skip_blank(rendered_lines(names)) == names,
    decreases names.len(),
{
    if names.len() == 0 {
        assert(lines_until_blank(Seq::empty()) =~= names);
        assert(lines_skip_blank(Seq::empty()) =~= names);
    } else {
        let head = names[0];
        let r = rendered_lines(names);
        let i = head.len() as int;
        assert(r == head + seq![NEWLINE] + rendered_lines(names.skip(1)));
        assert(r[i] == NEWLINE);
        assert forall|k: int| 0 <= k < i implies r[k] != NEWLINE by {
            assert(r[k] == head[k]);
        }
        lemma_find_newline_at(r, i);
        assert(r.take(i) =~= head);
        assert(r.skip(i + 1) =~= rendered_lines(names.skip(1)));
        lemma_lines_roundtrip(names.skip(1));
        assert(seq![head] + names.skip(1) =~= names);
    }
}

/// Copy `text[from..to]` into a fresh byte string.
fn copy_range(text: &Vec<u8>, from: usize, to: usize) -> (line: Vec<u8>)
    requires
        from <= to <= text@.len(),
    ensures
        line@ == text@.subrange(from as int, to as int),
{
    let mut line: Vec<u8> = Vec::new();
    let mut i: usize = from;
    while i < to
        invariant
            from <= i <= to <= text@.len(),
            line@ == text@.subrange(from as int, i as int),
        decreases to - i,
    {
        let ghost pre = line@;
        line.push(text[i]);
        proof {
            assert(pre.push(text@[i as int]) =~= text@.subrange(from as int, i as int + 1));
        }
        i += 1;
    }
    line
}

/// Scan for the next newline at or after `pos`.
fn find_newline_from(text: &Vec<u8>, pos: usize) -> (j: usize)
    requires
        pos <= text@.len(),
    ensures
        pos <= j <= text@.len(),
        forall|k: int| pos <= k < j ==> text@[k] != NEWLINE,
        j < text@.len() ==> text@[j as int] == NEWLINE,
        j < text@.len() ==> find_newline(text@.skip(pos as int)) == Some((j - pos) as nat),
        j == text@.len() ==> find_newline(text@.skip(pos as int)) is None,
{
    let mut j: usize = pos;
    while j < text.len()
        invariant
            pos <= j <= text@.len(),
            forall|k: int| pos <= k < j ==> text@[k] != NEWLINE,
        decreases text@.len() - j,
    {
        if text[j] == NEWLINE {
            proof {
                lemma_find_newline_at(text@.skip(pos as int), j - pos);
            }
            return j;
        }
        j += 1;
    }
    proof {
        lemma_find_newline_none(text@.skip(pos as int));
    }
    j
}

/// Read the known-roster file: its lines, stopping at the first empty line.
pub fn parse_roster_lines(text: &Vec<u8>) -> (names: Vec<Vec<u8>>)
    ensures
        name_views(names@) == lines_until_blank(text@),
{
    let mut names: Vec<Vec<u8>> = Vec::new();
    let mut pos: usize = 0;
    proof {
        assert(text@.skip(0) =~= text@);
    }
    while pos < text.len()
        invariant
            pos <= text@.len(),
            name_views(names@) + lines_until_blank(text@.skip(pos as int)) == lines_until_blank(
                text@,
            ),
        decreases text@.len() - pos,
    {
        let ghost rest = text@.skip(pos as int);
        let j = find_newline_from(text, pos);
        if j == pos {
            // an empty line: everything after it is ignored
            proof {
                assert(lines_until_blank(rest) =~= Seq::<Seq<u8>>::empty());
                assert(name_views(names@) =~= lines_until_blank(text@));
            }
            return names;
        }
        let line = copy_range(text, pos, j);
        let ghost pre = names@;
        names.push(line);
        proof {
            assert(name_views(names@) =~= name_views(pre).push(line@));
            if j < text@.len() {
                assert(rest.take(j - pos) =~= line@);
                assert(rest.skip(j - pos + 1) =~= text@.skip(j as int + 1));
                assert(lines_until_blank(rest) == seq![line@] + lines_until_blank(
                    text@.skip(j as int + 1),
                ));
            } else {
                assert(rest.take(j - pos) =~= line@);
                assert(rest =~= line@);
                assert(lines_until_blank(rest) == seq![line@]);
                assert(text@.skip(j as int) =~= Seq::<u8>::empty());
                assert(lines_until_blank(text@.skip(j as int)) =~= Seq::<Seq<u8>>::empty());
            }
            assert(name_views(names@) + lines_until_blank(text@.skip(j as int + (if j
                < text@.len() {
                1int
            } else {
                0int
            }))) =~= lines_until_blank(text@));
        }
        if j < text.len() {
            pos = j + 1;
        } else {
            pos = j;
        }
    }
    proof {
        assert(text@.skip(pos as int) =~= Seq::<u8>::empty());
        assert(lines_until_blank(text@.skip(pos as int)) =~= Seq::<Seq<u8>>::empty());
        assert(name_views(names@) =~= lines_until_blank(text@));
    }
    names
}

/// Read the proxy seed file: its non-empty lines.
pub fn parse_proxy_lines(text: &Vec<u8>) -> (proxies: Vec<Vec<u8>>)
    ensures
        name_views(proxies@) == lines_skip_blank(text@),
{
    let mut proxies: Vec<Vec<u8>> = Vec::new();
    let mut pos: usize = 0;
    proof {
        assert(text@.skip(0) =~= text@);
    }
    while pos < text.len()
        invariant
            pos <= text@.len(),
            name_views(proxies@) + lines_skip_blank(text@.skip(pos as int)) == lines_skip_blank(
                text@,
            ),
        decreases text@.len() - pos,
    {
        let ghost rest = text@.skip(pos as int);
        let j = find_newline_from(text, pos);
        if j == pos {
            // an empty line: skipped
            proof {
                assert(rest.skip(1) =~= text@.skip(pos as int + 1));
                assert(lines_skip_blank(rest) == lines_skip_blank(text@.skip(pos as int + 1)));
            }
            pos = pos + 1;
        } else {
            let line = copy_range(text, pos, j);
            let ghost pre = proxies@;
            proxies.push(line);
            proof {
                assert(name_views(proxies@) =~= name_views(pre).push(line@));
                if j < text@.len() {
                    assert(rest.take(j - pos) =~= line@);
                    assert(rest.skip(j - pos + 1) =~= text@.skip(j as int + 1));
                    assert(lines_skip_blank(rest) == seq![line@] + lines_skip_blank(
                        text@.skip(j as int + 1),
                    ));
                } else {
                    assert(rest.take(j - pos) =~= line@);
                    assert(rest =~= line@);
                    assert(lines_skip_blank(rest) == seq![line@]);
                    assert(text@.skip(j as int) =~= Seq::<u8>::empty());
                    assert(lines_skip_blank(text@.skip(j as int)) =~= Seq::<Seq<u8>>::empty());
                }
                assert(name_views(proxies@) + lines_skip_blank(text@.skip(j as int + (if j
                    < text@.len() {
                    1int
                } else {
                    0int
                }))) =~= lines_skip_blank(text@));
            }
            if j < text.len() {
                pos = j + 1;
            } else {
                pos = j;
            }
        }
    }
    proof {
        assert(text@.skip(pos as int) =~= Seq::<u8>::empty());
        assert(lines_skip_blank(text@.skip(pos as int)) =~= Seq::<Seq<u8>>::empty());
        assert(name_views(proxies@) =~= lines_skip_blank(text@));
    }
    proxies
}

/// Render a list for saving: one name per line, a newline after each.
pub fn render_lines(names: &Vec<Vec<u8>>) -> (text: Vec<u8>)
    ensures
        text@ == rendered_lines(name_views(names@)),
{
    let mut text: Vec<u8> = Vec::new();
    let mut i: usize = 0;
    let ghost views = name_views(names@);
    proof {
        assert(views.skip(0) =~= views);
    }
    while i < names.len()
        invariant
            i <= names@.len(),
            views == name_views(names@),
            text@ + rendered_lines(views.skip(i as int)) == rendered_lines(views),
        decreases names@.len() - i,
    {
        let ghost pre = text@;
        crate::codec::write_bytes(&mut text, &names[i]);
        text.push(NEWLINE);
        proof {
            let tail = views.skip(i as int);
            assert(tail[0] == names@[i as int]@);
            assert(tail.skip(1) =~= views.skip(i as int + 1));
            assert(rendered_lines(tail) == tail[0] + seq![NEWLINE] + rendered_lines(
                views.skip(i as int + 1),
            ));
            assert(text@ =~= pre + tail[0] + seq![NEWLINE]);
            assert(text@ + rendered_lines(views.skip(i as int + 1)) =~= rendered_lines(views));
        }
        i += 1;
    }
    proof {
        assert(views.skip(names@.len() as int) =~= Seq::<Seq<u8>>::empty());
        assert(text@ =~= rendered_lines(views));
    }
    text
}

} // verus!
