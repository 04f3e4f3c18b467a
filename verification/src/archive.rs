//! What may be unpacked from a ZIP archive: which entries, to which names, and
//! up to which size.

use std::io::Cursor;

use vstd::prelude::*;
use zip::ZipArchive;

verus! {

/// The size in bytes to which the archive of an addon may expand.
pub const MAX_EXPANDED_SIZE: u64 = 1_073_741_824;

/// The size in bytes to which the archive of the server may expand.
pub const MAX_BDS_EXPANDED_SIZE: u64 = 2_147_483_648;

/// Declares `zip::ZipArchive`, an archive opened for reading.
#[verifier::external_type_specification]
#[verifier::external_body]
#[verifier::reject_recursive_types(R)]
pub struct ExZipArchive<R>(ZipArchive<R>);

/// Declares `std::io::Cursor`, through which an archive is read from memory.
#[verifier::external_type_specification]
#[verifier::external_body]
#[verifier::reject_recursive_types(T)]
pub struct ExCursor<T>(Cursor<T>);

/// The bytes that an archive was opened on.
pub uninterp spec fn archive_bytes(archive: ZipArchive<Cursor<&[u8]>>) -> Seq<u8>;

/// Why `bytes` cannot be opened as an archive, if they cannot.
pub uninterp spec fn zip_open_error(bytes: Seq<u8>) -> Option<Seq<char>>;

/// The number of entries in the archive that `bytes` hold.
pub uninterp spec fn zip_entry_count(bytes: Seq<u8>) -> nat;

/// The name, the expanded size and the Unix mode of an entry of the archive that
/// `bytes` hold, or why the entry cannot be opened.
pub uninterp spec fn zip_entry(bytes: Seq<u8>, index: int) -> Result<
    (Seq<char>, u64, Option<u32>),
    Seq<char>,
>;

/// What an archive says of one of its entries.
pub struct EntryHeader {
    /// The path of the entry, as the archive spells it.
    pub name: String,
    /// Whether the path stays inside the directory that it is resolved in.
    pub enclosed: bool,
    /// Whether the entry is a directory.
    pub is_dir: bool,
    /// The size of the entry once expanded.
    pub size: u64,
    /// The Unix mode of the entry, if the archive gives one.
    pub unix_mode: Option<u32>,
}

/// The value of an [`EntryHeader`].
pub struct EntryHeaderView {
    pub name: Seq<char>,
    pub enclosed: bool,
    pub is_dir: bool,
    pub size: u64,
    pub unix_mode: Option<u32>,
}

impl View for EntryHeader {
    type V = EntryHeaderView;

    open spec fn view(&self) -> EntryHeaderView {
        EntryHeaderView {
            name: self.name@,
            enclosed: self.enclosed,
            is_dir: self.is_dir,
            size: self.size,
            unix_mode: self.unix_mode,
        }
    }
}

/// Whether `name` ends in a separator, which marks a directory.
pub open spec fn ends_in_separator(name: Seq<char>) -> bool {
    name.len() > 0 && (name.last() == '/' || name.last() == '\\')
}

/// Whether `c` parts the names in a path. Every system parts them at slashes, and some
/// at backslashes too.
pub open spec fn is_separator(c: char, backslashes: bool) -> bool {
    c == '/' || backslashes && c == '\\'
}

/// The position of the first separator in `path`, or the length of `path`.
pub open spec fn part_end(path: Seq<char>, backslashes: bool) -> nat
    decreases path.len(),
{
    if path.len() == 0 || is_separator(path[0], backslashes) {
        0
    } else {
        1 + part_end(path.skip(1), backslashes)
    }
}

/// Whether `path`, resolved from `depth` directories below some directory, nowhere
/// goes up from that directory.
pub open spec fn stays_below(path: Seq<char>, depth: nat, backslashes: bool) -> bool
    decreases path.len(),
{
    let end = part_end(path, backslashes) as int;
    let part = path.take(end);
    let rest = if end < path.len() {
        path.skip(end + 1)
    } else {
        Seq::empty()
    };
    if path.len() == 0 {
        true
    } else if part == ".."@ {
        depth > 0 && stays_below(rest, (depth - 1) as nat, backslashes)
    } else if part.len() == 0 || part == "."@ {
        stays_below(rest, depth, backslashes)
    } else {
        stays_below(rest, depth + 1, backslashes)
    }
}

/// Whether `name` is relative and stays inside the directory that it is resolved in,
/// on a system that parts names at backslashes, or on one that does not.
pub open spec fn is_inside(name: Seq<char>, backslashes: bool) -> bool {
    &&& name.len() > 0 ==> !is_separator(name[0], backslashes)
    &&& stays_below(name, 0, backslashes)
}

/// Whether `name` may count as enclosed: it holds no null character, and stays inside
/// as one system or the other reads it.
pub open spec fn may_be_enclosed(name: Seq<char>) -> bool {
    &&& !name.contains('\0')
    &&& is_inside(name, false) || is_inside(name, true)
}

/// Whether `name` may begin with a drive, such as `C:`.
pub open spec fn may_name_a_drive(name: Seq<char>) -> bool {
    name.len() > 1 && name[1] == ':'
}

/// Whether `name` must count as enclosed: it holds no null character, does not begin
/// with a drive, and stays inside however it is read.
pub open spec fn must_be_enclosed(name: Seq<char>) -> bool {
    &&& !name.contains('\0')
    &&& !may_name_a_drive(name)
    &&& is_inside(name, false)
    &&& is_inside(name, true)
}

/// Whether `entry` is what reading entry `index` of the archive in `bytes` may give.
/// Where systems read a name differently, `enclosed` may be what any of them makes of
/// it.
pub open spec fn is_entry(
    bytes: Seq<u8>,
    index: int,
    entry: Result<EntryHeaderView, Seq<char>>,
) -> bool {
    match (zip_entry(bytes, index), entry) {
        (Ok((name, size, unix_mode)), Ok(header)) => {
            &&& header.name == name
            &&& header.size == size
            &&& header.unix_mode == unix_mode
            &&& header.is_dir == ends_in_separator(name)
            &&& header.enclosed ==> may_be_enclosed(name)
            &&& must_be_enclosed(name) ==> header.enclosed
        },
        (Err(error), Err(text)) => error == text,
        _ => false,
    }
}

/// Calls `zip::ZipArchive::new` on the bytes. The archive that it gives reads from
/// them; of an error only the wording is kept.
#[verifier::external_body]
fn open_archive<'a>(bytes: &'a [u8]) -> (opened: Result<ZipArchive<Cursor<&'a [u8]>>, String>)
    ensures
        match opened {
            Ok(archive) => archive_bytes(archive) == bytes@ && zip_open_error(bytes@) is None,
            Err(error) => zip_open_error(bytes@) == Some(error@),
        },
{
    ZipArchive::new(Cursor::new(bytes)).map_err(|error| error.to_string())
}

/// Calls `zip::ZipArchive::len`, which counts the entries of the archive.
#[verifier::external_body]
fn entry_count(archive: &ZipArchive<Cursor<&[u8]>>) -> (count: usize)
    ensures
        count == zip_entry_count(archive_bytes(*archive)),
{
    archive.len()
}

/// Calls `zip::ZipArchive::by_index` and copies out what the entry says of itself:
/// `name`, `size`, `unix_mode`, `is_dir`, which tells from the end of the name,
/// and whether there is an `enclosed_name`, which counts how deep each part of the
/// path leads and refuses null characters, roots and drives. That depends on how the
/// system reads paths: what is stated holds on those that part names at backslashes
/// and on those that do not. Which characters before a colon name a drive is left
/// unsaid. The archive stays the same.
#[verifier::external_body]
fn entry_header(archive: &mut ZipArchive<Cursor<&[u8]>>, index: usize) -> (read: Result<
    EntryHeader,
    String,
>)
    ensures
        archive_bytes(*final(archive)) == archive_bytes(*old(archive)),
        match (zip_entry(archive_bytes(*old(archive)), index as int), read) {
            (Ok((name, size, unix_mode)), Ok(header)) => {
                &&& header.name@ == name
                &&& header.size == size
                &&& header.unix_mode == unix_mode
                &&& header.is_dir == ends_in_separator(name)
                &&& header.enclosed ==> may_be_enclosed(name)
                &&& must_be_enclosed(name) ==> header.enclosed
            },
            (Err(error), Err(text)) => text@ == error,
            _ => false,
        },
{
    match archive.by_index(index) {
        Ok(entry) => Ok(EntryHeader {
            name: entry.name().to_owned(),
            enclosed: entry.enclosed_name().is_some(),
            is_dir: entry.is_dir(),
            size: entry.size(),
            unix_mode: entry.unix_mode(),
        }),
        Err(error) => Err(error.to_string()),
    }
}

/// The value of an entry that was read, or of the reason that it was not.
pub open spec fn entry_view(entry: Result<EntryHeader, String>) -> Result<
    EntryHeaderView,
    Seq<char>,
> {
    match entry {
        Ok(header) => Ok(header@),
        Err(error) => Err(error@),
    }
}

/// What an archive must keep to.
pub struct ExtractionRules {
    /// The size to which the entries may expand together.
    pub limit: u64,
    /// Whether symbolic links are refused.
    pub refuse_symlinks: bool,
    /// What is said of an archive that expands further.
    pub too_large: &'static str,
}

/// The rules for the archive of an addon.
pub open spec fn addon_rules() -> ExtractionRules {
    ExtractionRules {
        limit: MAX_EXPANDED_SIZE,
        refuse_symlinks: true,
        too_large: "ZIP expands beyond 1 GiB",
    }
}

/// The rules for the archive of the server.
pub open spec fn server_rules() -> ExtractionRules {
    ExtractionRules {
        limit: MAX_BDS_EXPANDED_SIZE,
        refuse_symlinks: false,
        too_large: "ZIP is too large",
    }
}

impl ExtractionRules {
    /// The rules for the archive of an addon.
    pub fn for_addon() -> (rules: Self)
        ensures
            rules == addon_rules(),
    {
        ExtractionRules {
            limit: MAX_EXPANDED_SIZE,
            refuse_symlinks: true,
            too_large: "ZIP expands beyond 1 GiB",
        }
    }

    /// The rules for the archive of the server.
    pub fn for_server() -> (rules: Self)
        ensures
            rules == server_rules(),
    {
        ExtractionRules {
            limit: MAX_BDS_EXPANDED_SIZE,
            refuse_symlinks: false,
            too_large: "ZIP is too large",
        }
    }
}

/// An entry that is to be unpacked.
pub struct PlannedEntry {
    /// The position of the entry in the archive.
    pub index: usize,
    /// The path to unpack it to, inside the destination.
    pub name: String,
    /// Whether to create a directory rather than a file.
    pub is_dir: bool,
}

/// The value of a [`PlannedEntry`].
pub struct PlannedEntryView {
    pub index: int,
    pub name: Seq<char>,
    pub is_dir: bool,
}

impl View for PlannedEntry {
    type V = PlannedEntryView;

    open spec fn view(&self) -> PlannedEntryView {
        PlannedEntryView { index: self.index as int, name: self.name@, is_dir: self.is_dir }
    }
}

/// The entries to unpack, in order, and what stops the unpacking after them.
pub struct Extraction {
    pub planned: Vec<PlannedEntry>,
    /// The size to which the planned entries expand together.
    pub expanded: u64,
    pub failure: Option<String>,
}

/// The value of an [`Extraction`].
#[verifier::ext_equal]
pub struct ExtractionView {
    pub planned: Seq<PlannedEntryView>,
    pub expanded: u64,
    pub failure: Option<Seq<char>>,
}

impl View for Extraction {
    type V = ExtractionView;

    open spec fn view(&self) -> ExtractionView {
        ExtractionView {
            planned: self.planned@.map_values(|entry: PlannedEntry| entry@),
            expanded: self.expanded,
            failure: match self.failure {
                Some(text) => Some(text@),
                None => None,
            },
        }
    }
}

/// Whether a Unix mode is that of a symbolic link.
pub open spec fn is_symlink_mode(mode: u32) -> bool {
    mode & 0o170000 == 0o120000
}

/// Whether the archive marks the entry as a symbolic link.
pub open spec fn is_symlink(header: EntryHeaderView) -> bool {
    header.unix_mode is Some && is_symlink_mode(header.unix_mode->0)
}

/// Why the entry is refused after entries that expand to `expanded`, if it is.
pub open spec fn refusal(
    header: EntryHeaderView,
    expanded: u64,
    rules: ExtractionRules,
) -> Option<Seq<char>> {
    if !header.enclosed {
        Some("ZIP contains an unsafe path"@)
    } else if rules.refuse_symlinks && is_symlink(header) {
        Some("ZIP symlinks are not allowed"@)
    } else if expanded + header.size > u64::MAX {
        Some("ZIP size overflow"@)
    } else if expanded + header.size > rules.limit {
        Some(rules.too_large@)
    } else {
        None
    }
}

/// The extraction before any entry has been seen.
pub open spec fn nothing_yet() -> ExtractionView {
    ExtractionView { planned: Seq::empty(), expanded: 0, failure: None }
}

/// The extraction `before` with one more entry of the archive. What has failed
/// stays as it is.
pub open spec fn extended(
    before: ExtractionView,
    entry: Result<EntryHeaderView, Seq<char>>,
    rules: ExtractionRules,
) -> ExtractionView {
    if before.failure is Some {
        before
    } else {
        match entry {
            Ok(header) => match refusal(header, before.expanded, rules) {
                Some(text) => ExtractionView { failure: Some(text), ..before },
                None => ExtractionView {
                    planned: before.planned.push(
                        PlannedEntryView {
                            index: before.planned.len() as int,
                            name: header.name,
                            is_dir: header.is_dir,
                        },
                    ),
                    expanded: (before.expanded + header.size) as u64,
                    failure: None,
                },
            },
            Err(error) => ExtractionView { failure: Some(error), ..before },
        }
    }
}

/// The extraction of an archive with these entries.
pub open spec fn extraction(
    entries: Seq<Result<EntryHeaderView, Seq<char>>>,
    rules: ExtractionRules,
) -> ExtractionView
    decreases entries.len(),
{
    if entries.len() == 0 {
        nothing_yet()
    } else {
        extended(extraction(entries.drop_last(), rules), entries.last(), rules)
    }
}

/// The size to which the entries have expanded once `header` is unpacked too, or
/// why it may not be.
pub fn check_entry(header: &EntryHeader, expanded: u64, rules: &ExtractionRules) -> (checked: Result<
    u64,
    String,
>)
    ensures
        match checked {
            Ok(total) => refusal(header@, expanded, *rules) is None && total == expanded
                + header.size,
            Err(text) => refusal(header@, expanded, *rules) == Some(text@),
        },
{
    if !header.enclosed {
        return Err("ZIP contains an unsafe path".to_owned());
    }
    if rules.refuse_symlinks {
        if let Some(mode) = header.unix_mode {
            if mode & 0o170000 == 0o120000 {
                return Err("ZIP symlinks are not allowed".to_owned());
            }
        }
    }
    match expanded.checked_add(header.size) {
        Some(total) => if total > rules.limit {
            Err(rules.too_large.to_owned())
        } else {
            Ok(total)
        },
        None => Err("ZIP size overflow".to_owned()),
    }
}

impl Extraction {
    /// The extraction before any entry has been seen.
    pub fn new() -> (extraction: Self)
        ensures
            extraction@ == nothing_yet(),
    {
        Extraction { planned: Vec::new(), expanded: 0, failure: None }
    }

    /// Takes in the next entry of the archive.
    pub fn take_in(&mut self, entry: Result<EntryHeader, String>, rules: &ExtractionRules)
        ensures
            final(self)@ == extended(old(self)@, entry_view(entry), *rules),
    {
        if self.failure.is_some() {
            return ;
        }
        match entry {
            Ok(header) => match check_entry(&header, self.expanded, rules) {
                Ok(total) => {
                    let index: usize = self.planned.len();
                    self.planned.push(
                        PlannedEntry { index, name: header.name, is_dir: header.is_dir },
                    );
                    self.expanded = total;
                    assert(self@ =~= extended(old(self)@, entry_view(entry), *rules));
                },
                Err(text) => {
                    self.failure = Some(text);
                    assert(self@ =~= extended(old(self)@, entry_view(entry), *rules));
                },
            },
            Err(error) => {
                self.failure = Some(error);
                assert(self@ =~= extended(old(self)@, entry_view(entry), *rules));
            },
        }
    }
}

/// Whether `plan` is what comes of unpacking the archive in `bytes`, whatever the
/// system makes of the paths in it: the entries are taken in from the first on,
/// until one is refused or none is left.
pub open spec fn is_extraction(
    bytes: Seq<u8>,
    rules: ExtractionRules,
    plan: ExtractionView,
    entries: Seq<Result<EntryHeaderView, Seq<char>>>,
) -> bool {
    &&& entries.len() <= zip_entry_count(bytes)
    &&& forall|i: int| 0 <= i < entries.len() ==> is_entry(bytes, i, #[trigger] entries[i])
    &&& plan == extraction(entries, rules)
    &&& plan.failure is None ==> entries.len() == zip_entry_count(bytes)
}

/// Plans the unpacking of the archive in `bytes`. Everything planned is to be
/// unpacked even where a failure follows it. What the entries hold is not read here:
/// whoever unpacks them has each expand straight into its file.
pub fn plan_extraction(bytes: &[u8], rules: &ExtractionRules) -> (plan: Extraction)
    ensures
        match zip_open_error(bytes@) {
            Some(error) => plan@ == (ExtractionView { failure: Some(error), ..nothing_yet() }),
            None => exists|entries: Seq<Result<EntryHeaderView, Seq<char>>>|
                is_extraction(bytes@, *rules, plan@, entries),
        },
{
    let mut plan = Extraction::new();
    let mut archive: ZipArchive<Cursor<&[u8]>> = match open_archive(bytes) {
        Ok(archive) => archive,
        Err(error) => {
            plan.failure = Some(error);
            return plan;
        },
    };
    let count: usize = entry_count(&archive);
    let ghost mut entries: Seq<Result<EntryHeaderView, Seq<char>>> = Seq::empty();
    let mut index: usize = 0;
    while index < count && plan.failure.is_none()
        invariant
            archive_bytes(archive) == bytes@,
            zip_open_error(bytes@) is None,
            count == zip_entry_count(bytes@),
            index <= count,
            entries.len() == index,
            forall|i: int| 0 <= i < entries.len() ==> is_entry(bytes@, i, #[trigger] entries[i]),
            plan@ == extraction(entries, *rules),
        decreases count - index,
    {
        let entry: Result<EntryHeader, String> = entry_header(&mut archive, index);
        let ghost seen = entry_view(entry);
        plan.take_in(entry, rules);
        proof {
            assert(entries.push(seen).drop_last() =~= entries);
            entries = entries.push(seen);
        }
        index += 1;
    }
    assert(is_extraction(bytes@, *rules, plan@, entries));
    plan
}

/// The sizes of the first `count` of `entries` together.
pub open spec fn total_size(entries: Seq<Result<EntryHeaderView, Seq<char>>>, count: nat) -> nat
    decreases count,
{
    if count == 0 {
        0
    } else {
        total_size(entries, (count - 1) as nat) + match entries[count - 1] {
            Ok(header) => header.size as nat,
            Err(_) => 0,
        }
    }
}

proof fn lemma_total_size(
    entries: Seq<Result<EntryHeaderView, Seq<char>>>,
    other: Seq<Result<EntryHeaderView, Seq<char>>>,
    count: nat,
)
    requires
        count <= entries.len(),
        count <= other.len(),
        forall|i: int| 0 <= i < count ==> entries[i] == #[trigger] other[i],
    ensures
        total_size(entries, count) == total_size(other, count),
    decreases count,
{
    if count > 0 {
        lemma_total_size(entries, other, (count - 1) as nat);
        assert(entries[count - 1] == other[count - 1]);
    }
}

/// What is unpacked together never exceeds the limit: `expanded` is the sum of the
/// sizes of the planned entries.
pub proof fn extraction_stays_within_limit(
    entries: Seq<Result<EntryHeaderView, Seq<char>>>,
    rules: ExtractionRules,
)
    ensures
        extraction(entries, rules).expanded <= rules.limit,
        extraction(entries, rules).planned.len() <= entries.len(),
        extraction(entries, rules).expanded == total_size(
            entries,
            extraction(entries, rules).planned.len(),
        ),
    decreases entries.len(),
{
    if entries.len() > 0 {
        let front = entries.drop_last();
        extraction_plans_a_prefix(front, rules);
        extraction_stays_within_limit(front, rules);
        lemma_total_size(front, entries, extraction(front, rules).planned.len());
    }
}

/// Whether `planned` unpacks entry `index` under its name, and may do so: the entry
/// stays inside, and where links are refused it is not a link.
pub open spec fn unpacks(
    planned: PlannedEntryView,
    index: int,
    entry: Result<EntryHeaderView, Seq<char>>,
    rules: ExtractionRules,
) -> bool {
    match entry {
        Ok(header) => {
            &&& header.enclosed
            &&& rules.refuse_symlinks ==> !is_symlink(header)
            &&& planned == PlannedEntryView { index, name: header.name, is_dir: header.is_dir }
        },
        Err(_) => false,
    }
}

/// Entries are unpacked in their order, under their names, from the first on; each
/// of them stays inside, and where links are refused none of them is a link. If
/// nothing failed, all of them are unpacked, and if something did, it was the
/// entry after the last one that is.
pub proof fn extraction_plans_a_prefix(
    entries: Seq<Result<EntryHeaderView, Seq<char>>>,
    rules: ExtractionRules,
)
    ensures
        ({
            let plan = extraction(entries, rules);
            &&& plan.planned.len() <= entries.len()
            &&& plan.failure is None <==> plan.planned.len() == entries.len()
            &&& forall|i: int|
                0 <= i < plan.planned.len() ==> unpacks(
                    #[trigger] plan.planned[i],
                    i,
                    entries[i],
                    rules,
                )
            &&& plan.failure is Some ==> match entries[plan.planned.len() as int] {
                Ok(header) => refusal(header, plan.expanded, rules) == plan.failure,
                Err(error) => plan.failure == Some(error),
            }
        }),
    decreases entries.len(),
{
    if entries.len() > 0 {
        let front = entries.drop_last();
        extraction_plans_a_prefix(front, rules);
        let before = extraction(front, rules);
        let plan = extraction(entries, rules);
        assert forall|i: int| 0 <= i < plan.planned.len() implies unpacks(
            #[trigger] plan.planned[i],
            i,
            entries[i],
            rules,
        ) by {
            if i < before.planned.len() {
                assert(plan.planned[i] == before.planned[i]);
                assert(front[i] == entries[i]);
            }
        }
        assert(entries[front.len() as int] == entries.last());
        if before.failure is Some {
            assert(front[before.planned.len() as int] == entries[before.planned.len() as int]);
        }
    }
}

/// Whatever is unpacked from an archive stays inside: its path holds no null character,
/// is not absolute, and nowhere goes up from where it is unpacked, as one system or the
/// other reads it.
pub proof fn unpacked_paths_stay_inside(
    bytes: Seq<u8>,
    rules: ExtractionRules,
    plan: ExtractionView,
    entries: Seq<Result<EntryHeaderView, Seq<char>>>,
)
    requires
        is_extraction(bytes, rules, plan, entries),
    ensures
        forall|i: int|
            0 <= i < plan.planned.len() ==> may_be_enclosed((#[trigger] plan.planned[i]).name),
{
    extraction_plans_a_prefix(entries, rules);
    assert forall|i: int| 0 <= i < plan.planned.len() implies may_be_enclosed(
        (#[trigger] plan.planned[i]).name,
    ) by {
        assert(unpacks(plan.planned[i], i, entries[i], rules));
        assert(is_entry(bytes, i, entries[i]));
    }
}

proof fn lemma_part_end(path: Seq<char>)
    requires
        !path.contains('\\'),
    ensures
        part_end(path, true) == part_end(path, false),
        part_end(path, false) <= path.len(),
    decreases path.len(),
{
    if path.len() > 0 {
        assert(path[0] != '\\');
        lemma_suffix_lacks(path, 1, '\\');
        lemma_part_end(path.skip(1));
    }
}

proof fn lemma_suffix_lacks(path: Seq<char>, n: int, c: char)
    requires
        0 <= n <= path.len(),
        !path.contains(c),
    ensures
        !path.skip(n).contains(c),
{
    assert forall|i: int| 0 <= i < path.skip(n).len() implies path.skip(n)[i] != c by {
        assert(path[n + i] != c);
    }
}

proof fn lemma_stays_below(path: Seq<char>, depth: nat)
    requires
        !path.contains('\\'),
    ensures
        stays_below(path, depth, true) == stays_below(path, depth, false),
    decreases path.len(),
{
    if path.len() > 0 {
        lemma_part_end(path);
        let end = part_end(path, false) as int;
        let part = path.take(end);
        let rest = if end < path.len() {
            path.skip(end + 1)
        } else {
            Seq::empty()
        };
        if end < path.len() {
            lemma_suffix_lacks(path, end + 1, '\\');
        }
        if part == ".."@ {
            if depth > 0 {
                lemma_stays_below(rest, (depth - 1) as nat);
            }
        } else if part.len() == 0 || part == "."@ {
            lemma_stays_below(rest, depth);
        } else {
            lemma_stays_below(rest, depth + 1);
        }
    }
}

/// A name without backslashes is read alike by all systems: it must count as enclosed
/// where it may, unless it may begin with a drive.
pub proof fn names_without_backslashes_are_read_alike(name: Seq<char>)
    requires
        !name.contains('\\'),
        !may_name_a_drive(name),
    ensures
        is_inside(name, true) == is_inside(name, false),
        must_be_enclosed(name) == may_be_enclosed(name),
{
    lemma_stays_below(name, 0);
    if name.len() > 0 {
        assert(name[0] != '\\');
    }
}

/// Whether a Unix mode is that of a symbolic link, by the four bits that tell the kind.
pub open spec fn has_link_bits(mode: u32) -> bool {
    (mode / 4096) % 16 == 10
}

/// A Unix mode is that of a symbolic link exactly if the four bits above the lowest twelve
/// are 1010.
pub proof fn links_are_told_by_their_bits(mode: u32)
    ensures
        is_symlink_mode(mode) <==> has_link_bits(mode),
{
    assert((mode & 0o170000 == 0o120000) == ((mode / 4096) % 16 == 10)) by (bit_vector);
}

/// Whether the archive marks the entry as a symbolic link, by the bits of its Unix mode.
pub open spec fn is_marked_as_link(header: EntryHeaderView) -> bool {
    header.unix_mode is Some && has_link_bits(header.unix_mode->0)
}

/// An entry is refused for what is wrong with it: for a path that leads outside, for being
/// a link where links are refused, and for expanding, with the entries before it, beyond
/// the limit. Every other entry is accepted.
pub proof fn entries_are_refused_for_what_is_wrong(
    header: EntryHeaderView,
    expanded: u64,
    rules: ExtractionRules,
)
    ensures
        refusal(header, expanded, rules) == if !header.enclosed {
            Some("ZIP contains an unsafe path"@)
        } else if rules.refuse_symlinks && is_marked_as_link(header) {
            Some("ZIP symlinks are not allowed"@)
        } else if expanded + header.size > 0xffff_ffff_ffff_ffff {
            Some("ZIP size overflow"@)
        } else if expanded + header.size > rules.limit {
            Some(rules.too_large@)
        } else {
            None
        },
{
    if header.unix_mode is Some {
        links_are_told_by_their_bits(header.unix_mode->0);
    }
}

/// What is wrong with an entry of an addon: its path leads outside, it is a link, or the
/// entries expand beyond one gibibyte. What is wrong with an entry of a server: its path
/// leads outside, or the entries expand beyond two gibibytes.
pub proof fn addons_and_servers_have_their_limits(header: EntryHeaderView, expanded: u64)
    ensures
        refusal(header, expanded, addon_rules()) is None <==> header.enclosed
            && !is_marked_as_link(header) && expanded + header.size <= 1024 * 1024 * 1024,
        refusal(header, expanded, server_rules()) is None <==> header.enclosed && expanded
            + header.size <= 2 * 1024 * 1024 * 1024,
        addon_rules().too_large@ == "ZIP expands beyond 1 GiB"@,
        server_rules().too_large@ == "ZIP is too large"@,
{
    entries_are_refused_for_what_is_wrong(header, expanded, addon_rules());
    entries_are_refused_for_what_is_wrong(header, expanded, server_rules());
}

/// Whether an entry could be read, stays inside, and is no link where links are refused.
pub open spec fn is_acceptable(
    entry: Result<EntryHeaderView, Seq<char>>,
    rules: ExtractionRules,
) -> bool {
    match entry {
        Ok(header) => header.enclosed && !(rules.refuse_symlinks && is_marked_as_link(header)),
        Err(_) => false,
    }
}

/// The whole archive is unpacked exactly if every entry is acceptable and all of them
/// together do not expand beyond the limit.
pub proof fn archives_are_unpacked_whole_exactly_if_acceptable(
    entries: Seq<Result<EntryHeaderView, Seq<char>>>,
    rules: ExtractionRules,
)
    ensures
        extraction(entries, rules).failure is None <==> (forall|i: int|
            0 <= i < entries.len() ==> is_acceptable(#[trigger] entries[i], rules)) && total_size(
            entries,
            entries.len(),
        ) <= rules.limit,
        extraction(entries, rules).failure is None ==> extraction(entries, rules).planned.len()
            == entries.len(),
    decreases entries.len(),
{
    extraction_plans_a_prefix(entries, rules);
    extraction_stays_within_limit(entries, rules);
    let plan = extraction(entries, rules);
    if plan.failure is None {
        assert forall|i: int| 0 <= i < entries.len() implies is_acceptable(
            #[trigger] entries[i],
            rules,
        ) by {
            assert(unpacks(plan.planned[i], i, entries[i], rules));
            if let Ok(header) = entries[i] {
                if header.unix_mode is Some {
                    links_are_told_by_their_bits(header.unix_mode->0);
                }
            }
        }
    } else if (forall|i: int|
        0 <= i < entries.len() ==> is_acceptable(#[trigger] entries[i], rules)) && total_size(
        entries,
        entries.len(),
    ) <= rules.limit {
        let k = plan.planned.len();
        assert(is_acceptable(entries[k as int], rules));
        lemma_total_grows(entries, (k + 1) as nat, entries.len());
        if let Ok(header) = entries[k as int] {
            entries_are_refused_for_what_is_wrong(header, plan.expanded, rules);
        }
    }
}

proof fn lemma_total_grows(
    entries: Seq<Result<EntryHeaderView, Seq<char>>>,
    few: nat,
    many: nat,
)
    requires
        few <= many,
    ensures
        total_size(entries, few) <= total_size(entries, many),
    decreases many,
{
    if few < many {
        lemma_total_grows(entries, few, (many - 1) as nat);
    }
}

proof fn lemma_one_part(name: Seq<char>, backslashes: bool)
    requires
        forall|i: int| 0 <= i < name.len() ==> !is_separator(#[trigger] name[i], backslashes),
    ensures
        part_end(name, backslashes) == name.len(),
    decreases name.len(),
{
    if name.len() > 0 {
        assert(!is_separator(name[0], backslashes));
        let rest = name.skip(1);
        assert forall|i: int| 0 <= i < rest.len() implies !is_separator(
            #[trigger] rest[i],
            backslashes,
        ) by {
            assert(!is_separator(name[i + 1], backslashes));
        }
        lemma_one_part(rest, backslashes);
    }
}

proof fn lemma_first_part(name: Seq<char>, rest: Seq<char>, backslashes: bool)
    requires
        forall|i: int| 0 <= i < name.len() ==> !is_separator(#[trigger] name[i], backslashes),
    ensures
        part_end(name + seq!['/'] + rest, backslashes) == name.len(),
    decreases name.len(),
{
    let path = name + seq!['/'] + rest;
    if name.len() > 0 {
        assert(path[0] == name[0]);
        let shorter = name.skip(1);
        assert forall|i: int| 0 <= i < shorter.len() implies !is_separator(
            #[trigger] shorter[i],
            backslashes,
        ) by {
            assert(!is_separator(name[i + 1], backslashes));
        }
        lemma_first_part(shorter, rest, backslashes);
        assert(path.skip(1) =~= shorter + seq!['/'] + rest);
    }
}

/// How far inside a path stays, part by part: a name leads one directory deeper, a single
/// dot and nothing lead nowhere, and two dots lead one directory up, if there is one. A
/// path that begins with a separator is not inside at all.
pub proof fn paths_are_followed_part_by_part(
    name: Seq<char>,
    rest: Seq<char>,
    depth: nat,
    backslashes: bool,
)
    requires
        forall|i: int| 0 <= i < name.len() ==> !is_separator(#[trigger] name[i], backslashes),
    ensures
        ({
            let path = name + seq!['/'] + rest;
            &&& name == ".."@ ==> stays_below(path, depth, backslashes) == (depth > 0
                && stays_below(rest, (depth - 1) as nat, backslashes))
            &&& name.len() == 0 || name == "."@ ==> stays_below(path, depth, backslashes)
                == stays_below(rest, depth, backslashes)
            &&& name.len() > 0 && name != "."@ && name != ".."@ ==> stays_below(
                path,
                depth,
                backslashes,
            ) == stays_below(rest, depth + 1, backslashes)
            &&& stays_below(name, depth, backslashes) == (name != ".."@ || depth > 0)
            &&& !is_inside(seq!['/'] + rest, backslashes)
            &&& !is_inside(seq!['\\'] + rest, true)
        }),
{
    reveal_strlit("..");
    reveal_strlit(".");
    assert("."@.len() == 1 && ".."@.len() == 2);
    let path = name + seq!['/'] + rest;
    lemma_first_part(name, rest, backslashes);
    assert(path.take(name.len() as int) =~= name);
    assert(path.skip(name.len() as int + 1) =~= rest);
    lemma_one_part(name, backslashes);
    assert(name.take(name.len() as int) =~= name);
    assert(stays_below(Seq::empty(), (depth - 1) as nat, backslashes));
    assert(stays_below(Seq::empty(), depth, backslashes));
    assert(stays_below(Seq::empty(), depth + 1, backslashes));
    assert(name.len() > 0 ==> (stays_below(name, depth, backslashes) == (name != ".."@ || depth
        > 0)));
    assert((seq!['/'] + rest)[0] == '/');
    assert((seq!['\\'] + rest)[0] == '\\');
}

/// A plan without a failure holds every entry of the archive, in order, under the name that
/// the archive gives. One with a failure holds those before the entry that is to blame: one
/// that cannot be opened, or is refused for its path, for being a link or for its size.
pub proof fn plans_hold_the_archive_up_to_what_is_wrong(
    bytes: Seq<u8>,
    rules: ExtractionRules,
    plan: ExtractionView,
    entries: Seq<Result<EntryHeaderView, Seq<char>>>,
)
    requires
        is_extraction(bytes, rules, plan, entries),
    ensures
        forall|i: int|
            0 <= i < plan.planned.len() ==> names_entry(bytes, i, #[trigger] plan.planned[i]),
        plan.failure is None ==> plan.planned.len() == zip_entry_count(bytes),
        plan.failure is Some ==> plan.planned.len() < zip_entry_count(bytes) && match zip_entry(
            bytes,
            plan.planned.len() as int,
        ) {
            Ok((name, size, unix_mode)) => {
                ||| plan.failure == Some("ZIP contains an unsafe path"@) && !must_be_enclosed(name)
                ||| plan.failure == Some("ZIP symlinks are not allowed"@) && rules.refuse_symlinks
                    && unix_mode is Some && has_link_bits(unix_mode->0)
                ||| plan.failure == Some("ZIP size overflow"@) && plan.expanded + size
                    > 0xffff_ffff_ffff_ffff
                ||| plan.failure == Some(rules.too_large@) && plan.expanded + size > rules.limit
            },
            Err(error) => plan.failure == Some(error),
        },
{
    extraction_plans_a_prefix(entries, rules);
    assert forall|i: int| 0 <= i < plan.planned.len() implies names_entry(
        bytes,
        i,
        #[trigger] plan.planned[i],
    ) by {
        assert(unpacks(plan.planned[i], i, entries[i], rules));
        assert(is_entry(bytes, i, entries[i]));
    }
    if plan.failure is Some {
        let k = plan.planned.len() as int;
        assert(is_entry(bytes, k, entries[k]));
        if let Ok(header) = entries[k] {
            entries_are_refused_for_what_is_wrong(header, plan.expanded, rules);
        }
    }
}

/// Whether `planned` is entry `i` of the archive in `bytes`, under its name, as a directory
/// exactly if the name ends in a separator.
pub open spec fn names_entry(bytes: Seq<u8>, i: int, planned: PlannedEntryView) -> bool {
    &&& zip_entry(bytes, i) is Ok
    &&& planned.index == i
    &&& planned.name == zip_entry(bytes, i)->Ok_0.0
    &&& planned.is_dir <==> planned.name.len() > 0 && (planned.name.last() == '/'
        || planned.name.last() == '\\')
}

} // verus!
