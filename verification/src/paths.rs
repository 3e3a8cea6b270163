//! The list of Parquet paths: one path per line, blank lines and comments aside.

use vstd::prelude::*;

use crate::text::{split, trim};

verus! {

/// Whether a trimmed line names a path: it is not blank and no comment.
pub open spec fn is_path(line: Seq<char>) -> bool {
    line.len() > 0 && line.first() != '#'
}

/// The paths that a list holds, in its order: the trimmed lines that name one.
pub open spec fn paths_of(list: Seq<char>) -> Seq<Seq<char>> {
    crate::text::lines(list).map_values(|line: Seq<char>| crate::text::trimmed(line)).filter(
        |line: Seq<char>| is_path(line),
    )
}

/// Whether a path stands in a list as it is: on one line, with nothing to trim,
/// and not taken for a comment.
pub open spec fn is_listable(path: Seq<char>) -> bool {
    &&& is_path(path)
    &&& crate::text::trimmed(path) == path
    &&& !path.contains('\n')
}

/// Why a list of paths was not accepted.
#[derive(Debug, PartialEq, Eq)]
pub enum PathsError {
    /// No line of the file names a path.
    NoPaths {
        /// The file, as it is shown.
        paths_file: String,
    },
}

/// What is said of a file without paths.
pub open spec fn no_paths_text(paths_file: Seq<char>) -> Seq<char> {
    "--paths-file "@ + paths_file + " contained no paths"@
}

impl PathsError {
    /// The file that the error is about.
    pub open spec fn file(self) -> Seq<char> {
        match self {
            PathsError::NoPaths { paths_file } => paths_file@,
        }
    }

    /// What the error says.
    pub fn message(&self) -> (m: String)
        ensures
            m@ == no_paths_text(self.file()),
            self matches PathsError::NoPaths { paths_file } ==> m@ == "--paths-file "@ + paths_file@
                + " contained no paths"@,
    {
        match self {
            PathsError::NoPaths { paths_file } => {
                let mut m = "--paths-file ".to_string();
                m.append(paths_file.as_str());
                m.append(" contained no paths");
                m
            },
        }
    }
}

/// Whether the trimmed `line` names a path.
fn names_path(line: &String) -> (b: bool)
    ensures
        b == is_path(line@),
{
    let mut chars = line.as_str().chars();
    match chars.next() {
        Some(c) => c != '#',
        None => false,
    }
}

/// The paths in the text of a list.
pub fn select_paths(list: &str) -> (paths: Vec<String>)
    ensures
        paths.deep_view() == paths_of(list@),
        forall|i: int|
            0 <= i < paths@.len() ==> {
                let path = (#[trigger] paths@[i])@;
                &&& path.len() > 0
                &&& path[0] != '#'
                &&& !crate::text::is_white_space(path.first())
                &&& !crate::text::is_white_space(path.last())
                &&& !path.contains('\n')
            },
        forall|k: int|
            0 <= k < crate::text::lines(list@).len() ==> {
                let text = crate::text::trimmed(#[trigger] crate::text::lines(list@)[k]);
                text.len() > 0 && text[0] != '#' ==> paths.deep_view().contains(text)
            },
{
    let pieces = split(list, '\n');
    let mut paths: Vec<String> = Vec::new();
    let ghost all = pieces.deep_view();
    let ghost kept = |line: Seq<char>| is_path(line);
    let ghost cut = |line: Seq<char>| crate::text::trimmed(line);
    assert(all.take(0).map_values(cut).filter(kept) =~= Seq::<Seq<char>>::empty()) by {
        reveal(Seq::filter);
    }
    let count: usize = pieces.len();
    for i in 0..count
        invariant
            count == pieces.len(),
            all == pieces.deep_view(),
            kept == (|line: Seq<char>| is_path(line)),
            cut == (|line: Seq<char>| crate::text::trimmed(line)),
            paths.deep_view() =~= all.take(i as int).map_values(cut).filter(kept),
    {
        let line = trim(pieces[i].as_str());
        let ghost before = paths.deep_view();
        let ghost text = line@;
        proof {
            let seen = all.take(i as int).map_values(cut);
            assert(all.take(i + 1).map_values(cut) =~= seen.push(text));
            seen.lemma_filter_push(text, kept);
        }
        if names_path(&line) {
            paths.push(line);
            assert(paths.deep_view() =~= before.push(text));
        }
    }
    proof {
        assert(all.take(count as int) =~= all);
        paths_by_newline(list@);
        read_paths_are_clean(list@);
        assert forall|i: int| 0 <= i < paths@.len() implies ({
            let path = (#[trigger] paths@[i])@;
            &&& path.len() > 0
            &&& path[0] != '#'
            &&& !crate::text::is_white_space(path.first())
            &&& !crate::text::is_white_space(path.last())
            &&& !path.contains('\n')
        }) by {
            assert(paths@[i]@ == paths_of(list@)[i]);
        }
        assert forall|k: int| 0 <= k < crate::text::lines(list@).len() implies ({
            let text = crate::text::trimmed(#[trigger] crate::text::lines(list@)[k]);
            text.len() > 0 && text[0] != '#' ==> paths.deep_view().contains(text)
        }) by {
            every_other_line_is_read(
                list@,
                crate::text::trimmed(crate::text::lines(list@)[k]),
            );
        }
    }
    paths
}

/// Takes the paths out of the text of the list that `paths_file` holds, and
/// refuses a list without any.
pub fn load_paths(paths_file: &str, list: &str) -> (r: Result<Vec<String>, PathsError>)
    ensures
        match r {
            Ok(paths) => paths.deep_view() == paths_of(list@) && paths@.len() > 0,
            Err(e) => e.file() == paths_file@ && paths_of(list@).len() == 0,
        },
        r matches Err(PathsError::NoPaths { paths_file: file }) ==> file@ == paths_file@,
        r is Err <==> forall|k: int|
            0 <= k < crate::text::lines(list@).len() ==> {
                let text = crate::text::trimmed(#[trigger] crate::text::lines(list@)[k]);
                text.len() == 0 || text[0] == '#'
            },
{
    let paths = select_paths(list);
    assert(paths.deep_view().len() == paths@.len());
    proof {
        if paths@.len() > 0 {
            every_other_line_is_read(list@, paths_of(list@)[0]);
        }
    }
    if paths.len() == 0 {
        return Err(PathsError::NoPaths { paths_file: paths_file.to_string() });
    }
    Ok(paths)
}

/// The carriage return in front of a line feed makes no difference to the paths:
/// they are those of the pieces between the line feeds.
pub proof fn paths_by_newline(list: Seq<char>)
    ensures
        paths_of(list) == crate::text::split_on(list, '\n').map_values(
            |line: Seq<char>| crate::text::trimmed(line),
        ).filter(|line: Seq<char>| is_path(line)),
{
    let kept = |line: Seq<char>| is_path(line);
    let cut = |line: Seq<char>| crate::text::trimmed(line);
    let pieces = crate::text::split_on(list, '\n');
    let lines = crate::text::lines(list);
    crate::text::split_has_a_piece(list, '\n');
    let ended = pieces.drop_last();
    let bare = ended.map_values(|line: Seq<char>| crate::text::without_carriage_return(line));
    assert(bare.map_values(cut) =~= ended.map_values(cut)) by {
        assert forall|i: int| 0 <= i < ended.len() implies #[trigger] cut(bare[i]) == cut(
            ended[i],
        ) by {
            let line = ended[i];
            if line.len() > 0 && line.last() == '\r' {
                crate::text::trimmed_push_white_space(line.drop_last(), '\r');
                assert(line.drop_last().push('\r') =~= line);
            }
        }
    }
    let last = pieces.last();
    assert(pieces.map_values(cut) =~= ended.map_values(cut).push(cut(last)));
    ended.map_values(cut).lemma_filter_push(cut(last), kept);
    if last.len() == 0 {
        assert(cut(last) == last);
    } else {
        assert(lines.map_values(cut) =~= bare.map_values(cut).push(cut(last)));
    }
}

/// A line feed between two lists parts their paths.
pub proof fn paths_of_two_lists(a: Seq<char>, b: Seq<char>)
    ensures
        paths_of(a.push('\n') + b) == paths_of(a) + paths_of(b),
{
    let kept = |line: Seq<char>| is_path(line);
    let cut = |line: Seq<char>| crate::text::trimmed(line);
    let first = crate::text::split_on(a, '\n');
    let second = crate::text::split_on(b, '\n');
    crate::text::split_at_separator(a, '\n', b);
    paths_by_newline(a);
    paths_by_newline(b);
    paths_by_newline(a.push('\n') + b);
    assert((first + second).map_values(cut) =~= first.map_values(cut) + second.map_values(cut));
    Seq::filter_distributes_over_add(first.map_values(cut), second.map_values(cut), kept);
}

/// One line alone gives its trimmed text, if that names a path, and else nothing.
pub proof fn paths_of_one_line(line: Seq<char>)
    requires
        !line.contains('\n'),
    ensures
        paths_of(line) == if is_path(crate::text::trimmed(line)) {
            seq![crate::text::trimmed(line)]
        } else {
            Seq::<Seq<char>>::empty()
        },
{
    let kept = |line: Seq<char>| is_path(line);
    let cut = |line: Seq<char>| crate::text::trimmed(line);
    let none = Seq::<Seq<char>>::empty();
    paths_by_newline(line);
    crate::text::split_of_one_piece(line, '\n');
    assert(seq![line].map_values(cut) =~= none.push(cut(line)));
    none.lemma_filter_push(cut(line), kept);
    assert(none.filter(kept) =~= none) by {
        reveal(Seq::filter);
    }
    assert(none.push(cut(line)) =~= seq![cut(line)]);
}

/// A blank line or a comment, wherever it stands, makes no difference to the paths.
pub proof fn other_lines_are_ignored(before: Seq<char>, line: Seq<char>, after: Seq<char>)
    requires
        !line.contains('\n'),
        !is_path(crate::text::trimmed(line)),
    ensures
        paths_of(before.push('\n') + line.push('\n') + after) == paths_of(
            before.push('\n') + after,
        ),
        paths_of(line.push('\n') + after) == paths_of(after),
{
    paths_of_one_line(line);
    paths_of_two_lists(line, after);
    paths_of_two_lists(before, after);
    paths_of_two_lists(before, line.push('\n') + after);
    assert(before.push('\n') + line.push('\n') + after =~= before.push('\n') + (line.push('\n')
        + after));
    assert(paths_of(line) + paths_of(after) =~= paths_of(after));
}

/// A line may end in a carriage return and a line feed as well as in a line feed.
pub proof fn carriage_return_is_ignored(before: Seq<char>, after: Seq<char>)
    ensures
        paths_of(before.push('\r').push('\n') + after) == paths_of(before.push('\n') + after),
{
    let kept = |line: Seq<char>| is_path(line);
    let cut = |line: Seq<char>| crate::text::trimmed(line);
    let ended = before.push('\r');
    paths_of_two_lists(ended, after);
    paths_of_two_lists(before, after);
    paths_by_newline(before);
    paths_by_newline(ended);
    let plain = crate::text::split_on(before, '\n');
    let pieces = crate::text::split_on(ended, '\n');
    crate::text::split_has_a_piece(before, '\n');
    assert(ended.drop_last() =~= before);
    assert(pieces == plain.drop_last().push(plain.last().push('\r')));
    crate::text::trimmed_push_white_space(plain.last(), '\r');
    assert(pieces.map_values(cut) =~= plain.map_values(cut));
}

/// A list of paths, one per line, is read again as it was written, with or without
/// the end of its last line.
pub proof fn read_as_written(paths: Seq<Seq<char>>)
    requires
        forall|i: int| 0 <= i < paths.len() ==> is_listable(#[trigger] paths[i]),
    ensures
        paths_of(crate::text::joined(paths, '\n')) == paths,
        paths_of(crate::text::joined(paths, '\n').push('\n')) == paths,
    decreases paths.len(),
{
    let list = crate::text::joined(paths, '\n');
    let nothing = Seq::<char>::empty();
    assert(nothing == crate::text::trimmed(nothing));
    paths_of_one_line(nothing);
    if paths.len() == 0 {
        assert(paths =~= Seq::<Seq<char>>::empty());
    } else {
        let last = paths.last();
        assert(is_listable(paths[paths.len() - 1]));
        paths_of_one_line(last);
        if paths.len() == 1 {
            assert(paths =~= seq![last]);
        } else {
            read_as_written(paths.drop_last());
            paths_of_two_lists(crate::text::joined(paths.drop_last(), '\n'), last);
            assert(paths.drop_last() + seq![last] =~= paths);
        }
    }
    paths_of_two_lists(list, nothing);
    assert(list.push('\n') + nothing =~= list.push('\n'));
    assert(paths_of(list) + paths_of(nothing) =~= paths_of(list));
}

/// Every path that is read can stand in a list as it is: it is not blank, has
/// nothing to trim, is no comment and lies on one line.
pub proof fn read_paths_are_listable(list: Seq<char>)
    ensures
        forall|i: int| 0 <= i < paths_of(list).len() ==> is_listable(#[trigger] paths_of(list)[i]),
{
    let kept = |line: Seq<char>| is_path(line);
    let cut = |line: Seq<char>| crate::text::trimmed(line);
    let pieces = crate::text::split_on(list, '\n');
    let lines = pieces.map_values(cut);
    let paths = paths_of(list);
    paths_by_newline(list);
    assert forall|i: int| 0 <= i < paths.len() implies is_listable(#[trigger] paths[i]) by {
        let path = paths[i];
        lines.lemma_filter_pred(kept, i);
        assert(lines.filter(kept).contains(path));
        lines.lemma_filter_contains_rev(kept, path);
        let k = choose|k: int| 0 <= k < lines.len() && lines[k] == path;
        let piece = pieces[k];
        assert(path == crate::text::trimmed(piece));
        crate::text::split_pieces_lack_separator(list, '\n');
        crate::text::trimmed_is_stretch(piece);
        crate::text::trimmed_ends(piece);
        let (from, to) = choose|from: int, to: int|
            0 <= from <= to <= piece.len() && crate::text::trimmed(piece)
                == #[trigger] piece.subrange(from, to);
        assert forall|j: int| 0 <= j < path.len() implies path[j] != '\n' by {
            assert(path[j] == piece[from + j]);
            assert(!piece.contains('\n'));
        }
    }
}

/// Each line that names a path is read, and nothing is read that is not on a line.
pub proof fn read_paths_are_the_lines(list: Seq<char>, path: Seq<char>)
    ensures
        paths_of(list).contains(path) <==> is_path(path) && exists|k: int|
            0 <= k < crate::text::lines(list).len() && crate::text::trimmed(
                #[trigger] crate::text::lines(list)[k],
            ) == path,
{
    let kept = |line: Seq<char>| is_path(line);
    let cut = |line: Seq<char>| crate::text::trimmed(line);
    let lines = crate::text::lines(list);
    let texts = lines.map_values(cut);
    if paths_of(list).contains(path) {
        let i = choose|i: int| 0 <= i < paths_of(list).len() && paths_of(list)[i] == path;
        texts.lemma_filter_pred(kept, i);
        texts.lemma_filter_contains_rev(kept, path);
        let k = choose|k: int| 0 <= k < texts.len() && texts[k] == path;
        assert(crate::text::trimmed(lines[k]) == path);
    }
    if is_path(path) && exists|k: int|
        0 <= k < lines.len() && crate::text::trimmed(#[trigger] lines[k]) == path {
        let k = choose|k: int|
            0 <= k < lines.len() && crate::text::trimmed(#[trigger] lines[k]) == path;
        assert(texts[k] == path);
        texts.lemma_filter_contains(kept, k);
    }
}

/// A line is left out only if its trimmed text is empty or starts with `#`: exactly the
/// other texts are among the paths that are read.
pub proof fn every_other_line_is_read(list: Seq<char>, path: Seq<char>)
    ensures
        paths_of(list).contains(path) <==> path.len() > 0 && path[0] != '#' && exists|k: int|
            0 <= k < crate::text::lines(list).len() && crate::text::trimmed(
                #[trigger] crate::text::lines(list)[k],
            ) == path,
{
    read_paths_are_the_lines(list, path);
}

/// Every path that is read has a character, begins neither with `#` nor with white space,
/// does not end in white space and holds no line feed.
pub proof fn read_paths_are_clean(list: Seq<char>)
    ensures
        forall|i: int|
            0 <= i < paths_of(list).len() ==> {
                let path = #[trigger] paths_of(list)[i];
                &&& path.len() > 0
                &&& path[0] != '#'
                &&& !crate::text::is_white_space(path.first())
                &&& !crate::text::is_white_space(path.last())
                &&& !path.contains('\n')
            },
{
    read_paths_are_listable(list);
    assert forall|i: int| 0 <= i < paths_of(list).len() implies ({
        let path = #[trigger] paths_of(list)[i];
        &&& path.len() > 0
        &&& path[0] != '#'
        &&& !crate::text::is_white_space(path.first())
        &&& !crate::text::is_white_space(path.last())
        &&& !path.contains('\n')
    }) by {
        let path = paths_of(list)[i];
        assert(is_listable(path));
        crate::text::trimmed_ends(path);
    }
}

/// Nothing is read from an empty list.
pub proof fn empty_list_has_no_paths()
    ensures
        paths_of(Seq::<char>::empty()) == Seq::<Seq<char>>::empty(),
{
    let nothing = Seq::<char>::empty();
    assert(!nothing.contains('\n'));
    crate::text::trimmed_white_space(nothing);
    paths_of_one_line(nothing);
}

/// A line gives a path: what stands on it between the white space at its ends, if that
/// does not begin with `#`. The path comes before those of the lines behind it.
pub proof fn line_with_path_is_read(line: Seq<char>, from: int, to: int, rest: Seq<char>)
    requires
        !line.contains('\n'),
        0 <= from < to <= line.len(),
        forall|k: int| 0 <= k < from ==> crate::text::is_white_space(#[trigger] line[k]),
        forall|k: int| to <= k < line.len() ==> crate::text::is_white_space(#[trigger] line[k]),
        !crate::text::is_white_space(line[from]),
        !crate::text::is_white_space(line[to - 1]),
        line[from] != '#',
    ensures
        paths_of(line) == seq![line.subrange(from, to)],
        paths_of(line.push('\n') + rest) == seq![line.subrange(from, to)] + paths_of(rest),
{
    crate::text::trimmed_leaves_what_is_between(line, from, to);
    paths_of_one_line(line);
    paths_of_two_lists(line, rest);
}

/// A line of white space gives no path.
pub proof fn blank_line_is_left_out(line: Seq<char>, rest: Seq<char>)
    requires
        !line.contains('\n'),
        forall|k: int| 0 <= k < line.len() ==> crate::text::is_white_space(#[trigger] line[k]),
    ensures
        paths_of(line) == Seq::<Seq<char>>::empty(),
        paths_of(line.push('\n') + rest) == paths_of(rest),
{
    crate::text::trimmed_white_space(line);
    paths_of_one_line(line);
    paths_of_two_lists(line, rest);
    assert(paths_of(line) + paths_of(rest) =~= paths_of(rest));
}

/// A line whose first character other than white space is `#` gives no path.
pub proof fn comment_is_left_out(line: Seq<char>, from: int, rest: Seq<char>)
    requires
        !line.contains('\n'),
        0 <= from < line.len(),
        forall|k: int| 0 <= k < from ==> crate::text::is_white_space(#[trigger] line[k]),
        line[from] == '#',
    ensures
        paths_of(line) == Seq::<Seq<char>>::empty(),
        paths_of(line.push('\n') + rest) == paths_of(rest),
{
    let (a, b) = crate::text::trimmed_takes_off_white_space(line);
    crate::text::trimmed_ends(line);
    assert(!crate::text::is_white_space('#'));
    assert(a <= from < b);
    assert(crate::text::trimmed(line).first() == line[a]);
    paths_of_one_line(line);
    paths_of_two_lists(line, rest);
    assert(paths_of(line) + paths_of(rest) =~= paths_of(rest));
}

/// Paths that have a character, lie on one line, have no white space at their ends and do
/// not begin with `#`, written each with a line feed behind it, are read as they are.
pub proof fn clean_list_is_read_as_written(paths: Seq<Seq<char>>)
    requires
        forall|i: int|
            0 <= i < paths.len() ==> {
                let path = #[trigger] paths[i];
                &&& path.len() > 0
                &&& path[0] != '#'
                &&& !crate::text::is_white_space(path.first())
                &&& !crate::text::is_white_space(path.last())
                &&& !path.contains('\n')
            },
    ensures
        paths_of(paths.map_values(|path: Seq<char>| path.push('\n')).flatten()) == paths,
{
    assert forall|i: int| 0 <= i < paths.len() implies is_listable(#[trigger] paths[i]) by {
        crate::text::trimmed_keeps_clean_text(paths[i]);
    }
    read_as_written(paths);
    crate::text::joined_is_pieces_in_order(paths, '\n');
    if paths.len() == 0 {
        assert(paths.map_values(|path: Seq<char>| path.push('\n')).flatten() =~= Seq::<
            char,
        >::empty());
        empty_list_has_no_paths();
        assert(paths =~= Seq::<Seq<char>>::empty());
    }
}

} // verus!
