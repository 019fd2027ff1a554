//! The menu entry for each recognised kernel image: what it holds, and the
//! text block that the bootloader reads.
use vstd::prelude::*;
use vstd::string::{StrSliceExecFns, StringExecFns};
use crate::info::{get_info_from_file_name, parse_name, BuildToken};
use crate::path::{join_path, path_join};
use grub_mkconfig_lib::menu_entry::MenuEntry;

verus! {

/// The settings of one menu entry: its title, the filesystem module it
/// loads, and the image it chainloads. Every entry also saves itself as the
/// default for the next boot.
#[derive(Clone, Debug, PartialEq, Eq)]
pub struct EntryConfig {
    pub title: String,
    pub module: String,
    pub chainloader: String,
}

impl View for EntryConfig {
    type V = (Seq<char>, Seq<char>, Seq<char>);

    open spec fn view(&self) -> (Seq<char>, Seq<char>, Seq<char>) {
        (self.title@, self.module@, self.chainloader@)
    }
}

/// `<label> (<name>)`.
pub open spec fn entry_title(label: Seq<char>, name: Seq<char>) -> Seq<char> {
    label + " ("@ + name + ")"@
}

/// The entry for the file `file_name` of the directory `uki_path`, or `None`
/// where its name does not parse.
pub open spec fn entry_of(
    label: Seq<char>,
    uki_path: Seq<char>,
    prefix: Seq<char>,
    suffix: Seq<char>,
    file_name: Seq<char>,
) -> Option<(Seq<char>, Seq<char>, Seq<char>)> {
    match parse_name(prefix, suffix, BuildToken::Word, file_name) {
        Some(f) => Some((entry_title(label, f.0), "fat"@, path_join(uki_path, file_name))),
        None => None,
    }
}

/// The entries of `names`, in their order, skipping the names that do not parse.
pub open spec fn entries_of(
    label: Seq<char>,
    uki_path: Seq<char>,
    prefix: Seq<char>,
    suffix: Seq<char>,
    names: Seq<Seq<char>>,
) -> Seq<(Seq<char>, Seq<char>, Seq<char>)>
    decreases names.len(),
{
    if names.len() == 0 {
        Seq::empty()
    } else {
        let rest = entries_of(label, uki_path, prefix, suffix, names.drop_last());
        match entry_of(label, uki_path, prefix, suffix, names.last()) {
            Some(e) => rest.push(e),
            None => rest,
        }
    }
}

/// Where no name parses, there are no entries.
pub proof fn lemma_no_match_no_entries(
    label: Seq<char>,
    uki_path: Seq<char>,
    prefix: Seq<char>,
    suffix: Seq<char>,
    names: Seq<Seq<char>>,
)
    requires
        forall|i: int|
            0 <= i < names.len() ==> parse_name(prefix, suffix, BuildToken::Word, #[trigger] names[i])
                is None,
    ensures
        entries_of(label, uki_path, prefix, suffix, names).len() == 0,
    decreases names.len(),
{
    if names.len() > 0 {
        let front = names.drop_last();
        assert forall|i: int| 0 <= i < front.len() implies parse_name(
            prefix,
            suffix,
            BuildToken::Word,
            #[trigger] front[i],
        ) is None by {
            assert(front[i] == names[i]);
        }
        assert(parse_name(prefix, suffix, BuildToken::Word, names[names.len() - 1]) is None);
        lemma_no_match_no_entries(label, uki_path, prefix, suffix, front);
    }
}

/// The entry for the image `file_name` found in `uki_path`, titled with
/// `label` and the name parsed from the file name; `None` where the file name
/// does not parse.
pub fn uki_entry(
    label: &str,
    uki_path: &str,
    prefix: &String,
    suffix: &String,
    file_name: &str,
) -> (r: Option<EntryConfig>)
    ensures
        match r {
            Some(e) => entry_of(label@, uki_path@, prefix@, suffix@, file_name@) == Some(e@),
            None => entry_of(label@, uki_path@, prefix@, suffix@, file_name@) is None,
        },
{
    match get_info_from_file_name(prefix, suffix, file_name, None) {
        None => None,
        Some(info) => {
            let mut title = String::from_str(label);
            title.append(" (");
            title.append(info.name.as_str());
            title.append(")");
            let module = String::from_str("fat");
            let chainloader = join_path(uki_path, file_name);
            Some(EntryConfig { title, module, chainloader })
        },
    }
}

/// The entries for the files `file_names` of `uki_path`, in their order;
/// files whose names do not parse have none.
pub fn select_entries(
    label: &str,
    uki_path: &str,
    prefix: &String,
    suffix: &String,
    file_names: &Vec<String>,
) -> (r: Vec<EntryConfig>)
    ensures
        r@.map_values(|e: EntryConfig| e@) == entries_of(
            label@,
            uki_path@,
            prefix@,
            suffix@,
            file_names@.map_values(|s: String| s@),
        ),
{
    let ghost names = file_names@.map_values(|s: String| s@);
    let mut r: Vec<EntryConfig> = Vec::new();
    let mut i: usize = 0;
    while i < file_names.len()
        invariant
            i <= file_names.len(),
            names == file_names@.map_values(|s: String| s@),
            r@.map_values(|e: EntryConfig| e@) == entries_of(
                label@,
                uki_path@,
                prefix@,
                suffix@,
                names.subrange(0, i as int),
            ),
        decreases file_names.len() - i,
    {
        assert(names.subrange(0, i + 1).drop_last() =~= names.subrange(0, i as int));
        let ghost before = r@;
        match uki_entry(label, uki_path, prefix, suffix, file_names[i].as_str()) {
            Some(e) => {
                r.push(e);
                assert(r@.map_values(|e: EntryConfig| e@) =~= before.map_values(
                    |e: EntryConfig| e@,
                ).push(e@));
            },
            None => {},
        }
        i += 1;
    }
    assert(names.subrange(0, i as int) =~= names);
    r
}

/// The shell quoting of `s` that grub_mkconfig_lib applies to a title
/// (`shell_quote::Sh::quote`); it depends on `s` alone.
pub uninterp spec fn sh_quoted(s: Seq<char>) -> Seq<char>;

/// `t` stands somewhere in `s`.
pub open spec fn occurs_in(s: Seq<char>, t: Seq<char>) -> bool {
    exists|i: int| 0 <= i && i + t.len() <= s.len() && #[trigger] s.subrange(i, i + t.len()) == t
}

/// `s` fits on one line: it holds no line break and does not end in a
/// carriage return.
pub open spec fn single_line(s: Seq<char>) -> bool {
    !s.contains('\n') && !(s.len() > 0 && s.last() == '\r')
}

/// The path that a `chainloader` line names: `path`, made absolute.
pub open spec fn chain_target(path: Seq<char>) -> Seq<char> {
    if path.len() > 0 && path[0] == '/' {
        path
    } else {
        "/"@ + path
    }
}

/// A menu block for the entry `(title, module, path)`: its first line is
/// `menuentry <quoted title> {`, it loads `module`, chainloads `path`, and
/// closes with the line `}`.
pub open spec fn is_entry_block(
    b: Seq<char>,
    title: Seq<char>,
    module: Seq<char>,
    path: Seq<char>,
) -> bool {
    &&& 13 + sh_quoted(title).len() <= b.len()
    &&& b.subrange(0, 13 + sh_quoted(title).len() as int) == "menuentry "@ + sh_quoted(title)
        + " {\n"@
    &&& single_line(module) ==> occurs_in(b, "insmod "@ + module + "\n"@)
    &&& single_line(path) ==> occurs_in(b, "chainloader "@ + chain_target(path) + "\n"@)
    &&& b.subrange(b.len() - 2, b.len() as int) == "}\n"@
}

/// `text` is the menu block of the entry `e` followed by a blank line.
pub open spec fn renders(e: (Seq<char>, Seq<char>, Seq<char>), text: Seq<char>) -> bool {
    &&& text.len() >= 1
    &&& text.last() == '\n'
    &&& is_entry_block(text.drop_last(), e.0, e.1, e.2)
}

/// Relies on grub_mkconfig_lib's `MenuEntry` builder (`name`, `insmod`,
/// `chainloader`, `save_default`, `generate`) for the text of a menu entry
/// titled `title` that loads `module`, saves itself as the default and
/// chainloads `path`. `generate` writes `menuentry <Sh::quote(title)> {`, then
/// the line `savedefault` or none (after `GRUB_SAVEDEFAULT`), the lines
/// `insmod <module>`, `insmod chain`, a blank line, `chainloader <path>` (with
/// a leading `/` added to a relative path), and `}`; the statement lines pass
/// through `str::lines`, hence the one-line conditions.
#[verifier::external_body]
fn generate_menu_entry(title: &str, module: &str, path: &str) -> (r: String)
    ensures
        13 + sh_quoted(title@).len() <= r@.len(),
        r@.subrange(0, 13 + sh_quoted(title@).len() as int) == "menuentry "@ + sh_quoted(title@)
            + " {\n"@,
        single_line(module@) ==> occurs_in(r@, "insmod "@ + module@ + "\n"@),
        single_line(path@) ==> occurs_in(r@, "chainloader "@ + chain_target(path@) + "\n"@),
        r@.subrange(r@.len() - 2, r@.len() as int) == "}\n"@,
{
    let mut entry = MenuEntry::builder().name(title).insmod(module).chainloader(path);
    entry.save_default();
    entry.generate()
}

/// The menu text of `entry`, followed by a blank line.
pub fn render_entry(entry: &EntryConfig) -> (r: String)
    ensures
        renders(entry@, r@),
{
    let mut r = generate_menu_entry(
        entry.title.as_str(),
        entry.module.as_str(),
        entry.chainloader.as_str(),
    );
    let ghost block = r@;
    proof {
        reveal_strlit("\n");
    }
    r.append("\n");
    assert(r@.drop_last() =~= block);
    r
}

/// The menu text of the files `file_names` of `uki_path`: one block, with its
/// blank line, for each file whose name parses, in their order.
pub fn render_entries(
    label: &str,
    uki_path: &str,
    prefix: &String,
    suffix: &String,
    file_names: &Vec<String>,
) -> (r: Vec<String>)
    ensures
        r.len() == entries_of(
            label@,
            uki_path@,
            prefix@,
            suffix@,
            file_names@.map_values(|s: String| s@),
        ).len(),
        forall|i: int|
            0 <= i < r.len() ==> renders(
                entries_of(
                    label@,
                    uki_path@,
                    prefix@,
                    suffix@,
                    file_names@.map_values(|s: String| s@),
                )[i],
                #[trigger] r@[i]@,
            ),
{
    let entries = select_entries(label, uki_path, prefix, suffix, file_names);
    let ghost es = entries_of(label@, uki_path@, prefix@, suffix@, file_names@.map_values(|s: String| s@));
    assert(es.len() == entries@.map_values(|e: EntryConfig| e@).len());
    let mut r: Vec<String> = Vec::new();
    let mut i: usize = 0;
    while i < entries.len()
        invariant
            i <= entries.len(),
            r.len() == i,
            es == entries@.map_values(|e: EntryConfig| e@),
            forall|j: int| 0 <= j < i ==> renders(#[trigger] es[j], r@[j]@),
        decreases entries.len() - i,
    {
        let text = render_entry(&entries[i]);
        assert(es[i as int] == entries@[i as int]@);
        r.push(text);
        i += 1;
    }
    r
}

} // verus!
