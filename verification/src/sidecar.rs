//! The command-line surface between the host and the indexer it launches as
//! a separate process: the argument list that carries the options of a run,
//! the options that an argument list stands for, and the lines that come
//! back.

use crate::options::{is_toggled, toggled, IndexOptions};
use crate::text::{
    chars_equal, from_chars, join, joined, same_text, split, split_on, texts, to_chars,
};
use vstd::prelude::*;

verus! {

/// The values of the indexer's command-line flags. `path` and `index` are
/// mandatory on the command line; the others may be absent.
#[derive(Debug, Clone)]
pub struct SidecarFlags {
    /// `--path`: the root to index.
    pub path: String,
    /// `--index`: a comma list of `files` and `dirs`.
    pub index: String,
    /// `--types`: a comma list of file types.
    pub types: Option<String>,
    /// `--exclude`: a comma list of `hidden`, `system`, `temp`, `empty` and
    /// `privileged`.
    pub exclude: Option<String>,
    /// `--exclude-regex`: the exclusion pattern.
    pub exclude_regex: Option<String>,
    /// `--exclude-paths`: a comma list of path prefixes.
    pub exclude_paths: Option<String>,
    /// `--exclude-files`: a comma list of path suffixes.
    pub exclude_files: Option<String>,
}

/// A flag and its value as two arguments, or nothing where the value is
/// absent.
pub open spec fn flag_pair(flag: Seq<char>, value: Option<Seq<char>>) -> Seq<Seq<char>> {
    match value {
        Some(v) => seq![flag, v],
        None => Seq::empty(),
    }
}

/// The words among the given ones whose condition holds, in order.
pub open spec fn chosen(words: Seq<(bool, Seq<char>)>) -> Seq<Seq<char>>
    decreases words.len(),
{
    if words.len() == 0 {
        Seq::empty()
    } else if words.last().0 {
        chosen(words.drop_last()).push(words.last().1)
    } else {
        chosen(words.drop_last())
    }
}

/// The chosen words as one comma list, or nothing where none is chosen.
pub open spec fn comma_list(words: Seq<(bool, Seq<char>)>) -> Option<Seq<char>> {
    if chosen(words).len() == 0 {
        None
    } else {
        Some(joined(chosen(words), ","@))
    }
}

/// The strings of an optional list as one comma list.
pub open spec fn comma_joined(list: Option<Vec<String>>) -> Option<Seq<char>> {
    match list {
        Some(items) => Some(joined(texts(items@), ","@)),
        None => None,
    }
}

/// The view of an optional string.
pub open spec fn text_of(value: Option<String>) -> Option<Seq<char>> {
    match value {
        Some(s) => Some(s@),
        None => None,
    }
}

/// The value of `--index` for the options: `files`, `dirs`, both or none.
pub open spec fn index_words(options: IndexOptions) -> Seq<(bool, Seq<char>)> {
    seq![(options.index_files, "files"@), (options.index_directories, "dirs"@)]
}

/// The value of `--exclude` for the options: the toggles that are on.
pub open spec fn exclude_words(options: IndexOptions) -> Seq<(bool, Seq<char>)> {
    seq![
        (toggled(options.exclude_hidden), "hidden"@),
        (toggled(options.exclude_system), "system"@),
        (toggled(options.exclude_temporary), "temp"@),
        (toggled(options.exclude_empty), "empty"@),
        (toggled(options.exclude_admin), "privileged"@),
    ]
}

/// The argument list that carries the options to the indexer.
pub open spec fn arguments_for(options: IndexOptions) -> Seq<Seq<char>> {
    seq!["--path"@, options.path@] + flag_pair("--index"@, comma_list(index_words(options)))
        + flag_pair("--types"@, comma_joined(options.file_types)) + flag_pair(
        "--exclude-regex"@,
        text_of(options.excluded_regex),
    ) + flag_pair("--exclude-paths"@, comma_joined(options.excluded_paths)) + flag_pair(
        "--exclude-files"@,
        comma_joined(options.excluded_files),
    ) + flag_pair("--exclude"@, comma_list(exclude_words(options)))
}

/// Appends a flag and its value to the arguments; appends nothing where the
/// value is absent.
pub fn push_arg(args: &mut Vec<String>, flag: &str, value: Option<String>)
    ensures
        texts(final(args)@) == texts(old(args)@) + flag_pair(flag@, text_of(value)),
{
    let ghost before = args@;
    match value {
        Some(val) => {
            args.push(flag.to_owned());
            args.push(val);
            assert(texts(args@) =~= texts(before) + seq![flag@, val@]);
        },
        None => {
            assert(texts(args@) =~= texts(before) + Seq::<Seq<char>>::empty());
        },
    }
}

/// The strings of an optional list as one comma list.
fn comma_join(list: &Option<Vec<String>>) -> (value: Option<String>)
    ensures
        text_of(value) == comma_joined(*list),
{
    match list {
        Some(items) => Some(join(items, ",")),
        None => None,
    }
}

/// Appends `word` to the list if `wanted`.
fn choose_word(words: &mut Vec<String>, wanted: bool, word: &str, Ghost(so_far): Ghost<
    Seq<(bool, Seq<char>)>,
>)
    requires
        texts(old(words)@) == chosen(so_far),
    ensures
        texts(final(words)@) == chosen(so_far.push((wanted, word@))),
{
    let ghost before = words@;
    assert(so_far.push((wanted, word@)).drop_last() =~= so_far);
    if wanted {
        words.push(word.to_owned());
        assert(texts(words@) =~= texts(before).push(word@));
    }
}

/// The chosen words as one comma list, or nothing where none is chosen.
fn comma_list_of(words: &Vec<String>, Ghost(all): Ghost<Seq<(bool, Seq<char>)>>) -> (value: Option<
    String,
>)
    requires
        texts(words@) == chosen(all),
    ensures
        text_of(value) == comma_list(all),
{
    if words.len() == 0 {
        assert(texts(words@).len() == 0);
        None
    } else {
        assert(texts(words@).len() == words@.len());
        Some(join(words, ","))
    }
}

/// The argument list that carries the options of a run to the indexer:
/// `--path` and the root; `--index` with what to index, unless neither
/// files nor directories are asked for; each of `--types`,
/// `--exclude-regex`, `--exclude-paths` and `--exclude-files` where the
/// options carry a value for it; and `--exclude` with the toggles that are
/// on, unless none is.
pub fn sidecar_args(options: &IndexOptions) -> (args: Vec<String>)
    ensures
        texts(args@) == arguments_for(*options),
{
    let mut args: Vec<String> = Vec::new();
    args.push("--path".to_owned());
    args.push(options.path.clone());
    assert(texts(args@) =~= seq!["--path"@, options.path@]);

    let mut index_values: Vec<String> = Vec::new();
    let ghost i0 = Seq::<(bool, Seq<char>)>::empty();
    let ghost i1 = i0.push((options.index_files, "files"@));
    let ghost i2 = i1.push((options.index_directories, "dirs"@));
    assert(texts(index_values@) =~= chosen(i0));
    choose_word(&mut index_values, options.index_files, "files", Ghost(i0));
    choose_word(&mut index_values, options.index_directories, "dirs", Ghost(i1));
    assert(i2 =~= index_words(*options));
    push_arg(&mut args, "--index", comma_list_of(&index_values, Ghost(i2)));
    push_arg(&mut args, "--types", comma_join(&options.file_types));
    push_arg(&mut args, "--exclude-regex", options.excluded_regex.clone());
    push_arg(&mut args, "--exclude-paths", comma_join(&options.excluded_paths));
    push_arg(&mut args, "--exclude-files", comma_join(&options.excluded_files));

    let hidden = is_toggled(&options.exclude_hidden);
    let system = is_toggled(&options.exclude_system);
    let temporary = is_toggled(&options.exclude_temporary);
    let empty = is_toggled(&options.exclude_empty);
    let admin = is_toggled(&options.exclude_admin);
    let mut exclude_values: Vec<String> = Vec::new();
    let ghost w0 = Seq::<(bool, Seq<char>)>::empty();
    let ghost w1 = w0.push((hidden, "hidden"@));
    let ghost w2 = w1.push((system, "system"@));
    let ghost w3 = w2.push((temporary, "temp"@));
    let ghost w4 = w3.push((empty, "empty"@));
    let ghost w5 = w4.push((admin, "privileged"@));
    assert(texts(exclude_values@) =~= chosen(w0));
    choose_word(&mut exclude_values, hidden, "hidden", Ghost(w0));
    choose_word(&mut exclude_values, system, "system", Ghost(w1));
    choose_word(&mut exclude_values, temporary, "temp", Ghost(w2));
    choose_word(&mut exclude_values, empty, "empty", Ghost(w3));
    choose_word(&mut exclude_values, admin, "privileged", Ghost(w4));
    assert(w5 =~= exclude_words(*options));
    push_arg(&mut args, "--exclude", comma_list_of(&exclude_values, Ghost(w5)));
    args
}

/// Whether `word` is one of the pieces.
fn has_word(pieces: &Vec<String>, word: &str) -> (found: bool)
    ensures
        found == texts(pieces@).contains(word@),
{
    let wanted = to_chars(word);
    let mut i: usize = 0;
    while i < pieces.len()
        invariant
            i <= pieces.len(),
            wanted@ == word@,
            forall|j: int| 0 <= j < i ==> texts(pieces@)[j] != word@,
        decreases pieces.len() - i,
    {
        let piece = to_chars(pieces[i].as_str());
        if chars_equal(&piece, &wanted) {
            assert(texts(pieces@)[i as int] == word@);
            return true;
        }
        i += 1;
    }
    false
}

/// Whether `word` is an item of the comma list `list`.
pub open spec fn lists(list: Seq<char>, word: Seq<char>) -> bool {
    split_on(list, ',').contains(word)
}

/// Whether `word` is an item of the optional comma list; an absent list has
/// no items.
pub open spec fn names(list: Option<String>, word: Seq<char>) -> bool {
    list matches Some(items) && lists(items@, word)
}

/// The items of an optional comma list.
pub open spec fn items_of(list: Option<String>) -> Option<Seq<Seq<char>>> {
    match list {
        Some(items) => Some(split_on(items@, ',')),
        None => None,
    }
}

/// The texts of an optional list of strings.
pub open spec fn texts_of(list: Option<Vec<String>>) -> Option<Seq<Seq<char>>> {
    match list {
        Some(items) => Some(texts(items@)),
        None => None,
    }
}

/// Whether `options` are what the flags stand for.
pub open spec fn stands_for(flags: SidecarFlags, options: IndexOptions) -> bool {
    &&& options.path@ == flags.path@
    &&& options.index_directories == lists(flags.index@, "dirs"@)
    &&& options.index_files == lists(flags.index@, "files"@)
    &&& texts_of(options.file_types) == items_of(flags.types)
    &&& text_of(options.excluded_regex) == text_of(flags.exclude_regex)
    &&& texts_of(options.excluded_paths) == match items_of(flags.exclude_paths) {
        Some(items) => Some(items),
        None => Some(Seq::empty()),
    }
    &&& texts_of(options.excluded_files) == match items_of(flags.exclude_files) {
        Some(items) => Some(items),
        None => Some(Seq::empty()),
    }
    &&& options.exclude_hidden == Some(names(flags.exclude, "hidden"@))
    &&& options.exclude_system == Some(names(flags.exclude, "system"@))
    &&& options.exclude_temporary == Some(names(flags.exclude, "temp"@))
    &&& options.exclude_empty == Some(names(flags.exclude, "empty"@))
    &&& options.exclude_admin == Some(names(flags.exclude, "privileged"@))
}

/// The items of an optional comma list.
fn split_list(list: &Option<String>) -> (items: Option<Vec<String>>)
    ensures
        texts_of(items) == items_of(*list),
{
    match list {
        Some(text) => Some(split(text.as_str(), ',')),
        None => None,
    }
}

/// The items of an optional comma list; an absent list has none.
fn split_list_or_empty(list: &Option<String>) -> (items: Option<Vec<String>>)
    ensures
        texts_of(items) == match items_of(*list) {
            Some(found) => Some(found),
            None => Some(Seq::empty()),
        },
{
    match list {
        Some(text) => Some(split(text.as_str(), ',')),
        None => {
            let none: Vec<String> = Vec::new();
            assert(texts(none@) =~= Seq::<Seq<char>>::empty());
            Some(none)
        },
    }
}

/// The options that the indexer's flags stand for.
///
/// A comma list is split at every comma. Files are indexed if `--index`
/// lists `files`, directories if it lists `dirs`. A toggle is on if
/// `--exclude` lists its word, and off otherwise. Absent `--exclude-paths`
/// and `--exclude-files` stand for empty lists.
pub fn options_from_flags(flags: SidecarFlags) -> (options: IndexOptions)
    ensures
        stands_for(flags, options),
{
    let index = split(flags.index.as_str(), ',');
    let exclude = match &flags.exclude {
        Some(text) => split(text.as_str(), ','),
        None => Vec::new(),
    };
    let listed = flags.exclude.is_some();
    let index_directories = has_word(&index, "dirs");
    let index_files = has_word(&index, "files");
    let file_types = split_list(&flags.types);
    let excluded_paths = split_list_or_empty(&flags.exclude_paths);
    let excluded_files = split_list_or_empty(&flags.exclude_files);
    let exclude_hidden = Some(listed && has_word(&exclude, "hidden"));
    let exclude_system = Some(listed && has_word(&exclude, "system"));
    let exclude_temporary = Some(listed && has_word(&exclude, "temp"));
    let exclude_empty = Some(listed && has_word(&exclude, "empty"));
    let exclude_admin = Some(listed && has_word(&exclude, "privileged"));
    IndexOptions {
        path: flags.path,
        index_directories,
        index_files,
        file_types,
        excluded_regex: flags.exclude_regex,
        excluded_paths,
        excluded_files,
        exclude_hidden,
        exclude_system,
        exclude_temporary,
        exclude_empty,
        exclude_admin,
    }
}

/// The arguments without every occurrence of `word`, in order.
pub open spec fn without_word(args: Seq<Seq<char>>, word: Seq<char>) -> Seq<Seq<char>>
    decreases args.len(),
{
    if args.len() == 0 {
        Seq::empty()
    } else if args.last() == word {
        without_word(args.drop_last(), word)
    } else {
        without_word(args.drop_last(), word).push(args.last())
    }
}

/// The arguments for the relaunch with elevated privileges: the arguments
/// of this launch without `--elevate`, so that the relaunch happens once.
pub fn relaunch_args(args: &Vec<String>) -> (kept: Vec<String>)
    ensures
        texts(kept@) == without_word(texts(args@), "--elevate"@),
{
    let mut kept: Vec<String> = Vec::new();
    let mut i: usize = 0;
    assert(texts(kept@) =~= Seq::<Seq<char>>::empty());
    while i < args.len()
        invariant
            i <= args.len(),
            texts(kept@) == without_word(texts(args@).take(i as int), "--elevate"@),
        decreases args.len() - i,
    {
        proof {
            let next = texts(args@).take(i + 1);
            assert(next.drop_last() =~= texts(args@).take(i as int));
            assert(next.last() == args@[i as int]@);
        }
        let ghost before = kept@;
        if !same_text(args[i].as_str(), "--elevate") {
            kept.push(args[i].clone());
            assert(texts(kept@) =~= texts(before).push(args@[i as int]@));
        }
        i += 1;
    }
    assert(texts(args@).take(args.len() as int) =~= texts(args@));
    kept
}

/// A line without its line ending: one trailing line feed is removed, and
/// then one trailing carriage return, if they are there.
pub open spec fn without_line_ending(line: Seq<char>) -> Seq<char> {
    if line.len() > 0 && line.last() == '\n' {
        let cut = line.drop_last();
        if cut.len() > 0 && cut.last() == '\r' {
            cut.drop_last()
        } else {
            cut
        }
    } else {
        line
    }
}

/// Removes the line ending from a line that the indexer has written.
pub fn trim_line_ending(line: &str) -> (trimmed: String)
    ensures
        trimmed@ == without_line_ending(line@),
{
    let mut chars = to_chars(line);
    let mut end: usize = chars.len();
    if end > 0 && chars[end - 1] == '\n' {
        end -= 1;
        if end > 0 && chars[end - 1] == '\r' {
            end -= 1;
        }
    }
    chars.truncate(end);
    assert(chars@ =~= without_line_ending(line@));
    from_chars(&chars)
}

} // verus!
