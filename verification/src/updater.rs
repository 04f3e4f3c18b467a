//! Keeping the installed addons at the versions that the registry offers.

use sha2::{Digest, Sha256};
use vstd::prelude::*;

use crate::text::{
    chars_of, decimal, decimal_text, equal_ignoring_case, hex_text, hexadecimals_can_be_read_back,
    join, lower_hex, same_ignoring_case, starts_with, text_of, writes_in_hex,
};

verus! {

/// How long an answer of the registry may take, in seconds.
pub const UPDATE_TIMEOUT_SECONDS: u64 = 60;

/// The file of an addon that says which version it is.
pub const VERSION_FILE: &'static str = ".kairo-version.json";

/// The addons that the launcher installs.
pub struct LauncherConfig {
    pub registry_url: String,
    pub addons: Vec<LauncherAddon>,
}

/// An addon that the launcher installs.
pub struct LauncherAddon {
    pub id: String,
    pub required: bool,
    pub latest_version_url: String,
}

/// A version that the registry offers.
pub struct RegistryVersion {
    pub version: String,
    pub file_size: u64,
    pub sha256: String,
    pub download_url: String,
}

/// A version that is installed.
pub struct InstalledVersion {
    pub version: String,
    pub sha256: String,
}

impl RegistryVersion {
    /// What is noted in an addon of this version once it is installed.
    pub fn installed(&self) -> (installed: InstalledVersion)
        ensures
            installed == noted_version(*self),
    {
        InstalledVersion { version: self.version.clone(), sha256: self.sha256.clone() }
    }
}

/// What is noted in an addon of this version once it is installed.
pub open spec fn noted_version(release: RegistryVersion) -> InstalledVersion {
    InstalledVersion { version: release.version, sha256: release.sha256 }
}

/// What became of an addon.
#[derive(Debug)]
pub struct UpdateResult {
    pub addon_id: String,
    pub version: String,
    pub required: bool,
    pub updated: bool,
}

impl UpdateResult {
    /// The id of the addon.
    pub fn addon_id(&self) -> (id: &str)
        ensures
            id@ == self.addon_id@,
    {
        self.addon_id.as_str()
    }
}

/// The ids of the addons that `results` speak of, in order.
pub fn addon_ids(results: &Vec<UpdateResult>) -> (ids: Vec<String>)
    ensures
        ids@.len() == results@.len(),
        forall|i: int| 0 <= i < ids@.len() ==> (#[trigger] ids@[i])@ == results@[i].addon_id@,
{
    let mut ids: Vec<String> = Vec::new();
    let mut i: usize = 0;
    while i < results.len()
        invariant
            i <= results@.len(),
            ids@.len() == i,
            forall|k: int| 0 <= k < i ==> (#[trigger] ids@[k])@ == results@[k].addon_id@,
        decreases results@.len() - i,
    {
        ids.push(results[i].addon_id().to_owned());
        i += 1;
    }
    ids
}

/// Whether `url` names a host of its own.
pub open spec fn is_absolute(url: Seq<char>) -> bool {
    "http://"@.is_prefix_of(url) || "https://"@.is_prefix_of(url)
}

/// `url` without slashes at its end.
pub open spec fn without_slashes(url: Seq<char>) -> Seq<char>
    decreases url.len(),
{
    if url.len() > 0 && url.last() == '/' {
        without_slashes(url.drop_last())
    } else {
        url
    }
}

/// The address that `value` stands for on the registry at `registry_url`.
pub open spec fn resolved_url(registry_url: Seq<char>, value: Seq<char>) -> Seq<char> {
    if is_absolute(value) {
        value
    } else if value.len() > 0 && value[0] == '/' {
        without_slashes(registry_url) + value
    } else {
        without_slashes(registry_url) + seq!['/'] + value
    }
}

/// The address that `value` stands for on the registry at `registry_url`.
pub fn absolute_url(registry_url: &str, value: &str) -> (url: String)
    ensures
        url@ == resolved_url(registry_url@, value@),
{
    let given: Vec<char> = chars_of(value);
    if starts_with(given.as_slice(), "http://") || starts_with(given.as_slice(), "https://") {
        return value.to_owned();
    }
    let registry: Vec<char> = chars_of(registry_url);
    let mut end: usize = registry.len();
    assert(registry@.take(end as int) =~= registry@);
    while end > 0 && registry[end - 1] == '/'
        invariant
            end <= registry@.len(),
            registry@ == registry_url@,
            without_slashes(registry_url@) == without_slashes(registry@.take(end as int)),
        decreases end,
    {
        assert(registry@.take(end as int).drop_last() =~= registry@.take(end - 1));
        end -= 1;
    }
    let mut url: String = text_of(registry.as_slice(), 0, end);
    assert(url@ =~= registry@.take(end as int));
    if given.len() == 0 || given[0] != '/' {
        url.push('/');
    }
    url.append(value);
    assert(url@ =~= resolved_url(registry_url@, value@));
    url
}

/// Whether `c` may stand in the id of an addon.
pub open spec fn is_id_char(c: char) -> bool {
    'a' <= c <= 'z' || '0' <= c <= '9' || c == '-'
}

/// Whether `id` may be the id of an addon.
pub open spec fn is_addon_id(id: Seq<char>) -> bool {
    id.len() > 0 && forall|i: int| 0 <= i < id.len() ==> is_id_char(#[trigger] id[i])
}

/// What is said of an id that no addon may have.
pub open spec fn bad_id_message(id: Seq<char>) -> Seq<char> {
    "不正なアドオンIDです: "@ + id
}

/// Accepts the ids that addons may have.
pub fn validate_addon_id(id: &str) -> (valid: Result<(), String>)
    ensures
        match valid {
            Ok(()) => is_addon_id(id@),
            Err(message) => !is_addon_id(id@) && message@ == bad_id_message(id@),
        },
{
    let chars: Vec<char> = chars_of(id);
    if chars.len() == 0 {
        return Err(join("不正なアドオンIDです: ", id));
    }
    let mut i: usize = 0;
    while i < chars.len()
        invariant
            chars@ == id@,
            chars@.len() > 0,
            i <= chars@.len(),
            forall|k: int| 0 <= k < i ==> is_id_char(#[trigger] chars@[k]),
        decreases chars@.len() - i,
    {
        let c: char = chars[i];
        if !(('a' <= c && c <= 'z') || ('0' <= c && c <= '9') || c == '-') {
            assert(!is_id_char(id@[i as int]));
            return Err(join("不正なアドオンIDです: ", id));
        }
        i += 1;
    }
    Ok(())
}

/// The SHA-256 digest of `bytes`.
pub uninterp spec fn sha256(bytes: Seq<u8>) -> Seq<u8>;

/// Calls `sha2::Sha256::digest`, which gives the digest of the bytes, 32 bytes
/// long.
#[verifier::external_body]
fn sha256_digest(bytes: &[u8]) -> (digest: Vec<u8>)
    ensures
        digest@ == sha256(bytes@),
        digest@.len() == 32,
{
    Sha256::digest(bytes).to_vec()
}

/// Why an archive of this size and with this digest is not the one that `release`
/// offers, if it is not.
pub open spec fn archive_fault(
    size: nat,
    digest: Seq<u8>,
    release: RegistryVersion,
) -> Option<Seq<char>> {
    if size != release.file_size {
        Some(
            "ファイルサイズが一致しません (expected "@ + decimal(release.file_size as nat) + ", got "@
                + decimal(size) + ")"@,
        )
    } else if !same_ignoring_case(lower_hex(digest), release.sha256@) {
        Some("SHA-256が一致しません"@)
    } else {
        None
    }
}

/// Accepts an archive that has the size and the digest that `release` gives.
pub fn check_archive(size: u64, digest: &[u8], release: &RegistryVersion) -> (checked: Result<
    (),
    String,
>)
    ensures
        match checked {
            Ok(()) => archive_fault(size as nat, digest@, *release) is None,
            Err(message) => archive_fault(size as nat, digest@, *release) == Some(message@),
        },
{
    if size != release.file_size {
        let mut message = join(
            "ファイルサイズが一致しません (expected ",
            decimal_text(release.file_size).as_str(),
        );
        message.append(", got ");
        message.append(decimal_text(size).as_str());
        message.append(")");
        return Err(message);
    }
    if !equal_ignoring_case(hex_text(digest).as_str(), release.sha256.as_str()) {
        return Err("SHA-256が一致しません".to_owned());
    }
    Ok(())
}

/// Accepts `bytes` if they are the archive that `release` offers.
pub fn verify_archive(bytes: &[u8], release: &RegistryVersion) -> (verified: Result<(), String>)
    ensures
        match verified {
            Ok(()) => archive_fault(bytes@.len(), sha256(bytes@), *release) is None,
            Err(message) => archive_fault(bytes@.len(), sha256(bytes@), *release) == Some(message@),
        },
{
    let digest: Vec<u8> = sha256_digest(bytes);
    check_archive(bytes.len() as u64, digest.as_slice(), release)
}

/// An addon id is one plain name: it holds nothing that separates, ends or goes up
/// in a path.
pub proof fn addon_ids_are_plain_names(id: Seq<char>)
    requires
        is_addon_id(id),
    ensures
        !id.contains('/'),
        !id.contains('\\'),
        !id.contains('.'),
        !id.contains(':'),
        !id.contains('\0'),
{
}

/// Whatever has been resolved is absolute where the registry is, and resolving it
/// again changes nothing.
pub proof fn resolved_urls_are_absolute(registry_url: Seq<char>, value: Seq<char>)
    requires
        is_absolute(without_slashes(registry_url)),
    ensures
        is_absolute(resolved_url(registry_url, value)),
        resolved_url(registry_url, resolved_url(registry_url, value)) == resolved_url(
            registry_url,
            value,
        ),
{
    let base = without_slashes(registry_url);
    let url = resolved_url(registry_url, value);
    if !is_absolute(value) {
        assert(base.is_prefix_of(url)) by {
            assert(url.subrange(0, base.len() as int) =~= base);
        }
        let scheme = if "http://"@.is_prefix_of(base) {
            "http://"@
        } else {
            "https://"@
        };
        assert(url.subrange(0, scheme.len() as int) =~= base.subrange(0, scheme.len() as int));
    }
}

/// However many slashes end the registry's address, the result is the same.
pub proof fn slashes_at_the_end_do_not_matter(registry_url: Seq<char>, value: Seq<char>)
    ensures
        resolved_url(registry_url.push('/'), value) == resolved_url(registry_url, value),
{
    assert(registry_url.push('/').drop_last() =~= registry_url);
}

/// Whether `text` is one or more small letters, digits and hyphens, and nothing else.
pub open spec fn is_small_letters_digits_and_hyphens(text: Seq<char>) -> bool {
    &&& text.len() > 0
    &&& forall|i: int|
        0 <= i < text.len() ==> {
            ||| 'a' <= #[trigger] text[i] <= 'z'
            ||| '0' <= text[i] <= '9'
            ||| text[i] == '-'
        }
}

/// Addons may have every id that is one or more small letters, digits and hyphens, and
/// no other.
pub proof fn addon_ids_are_small_letters_digits_and_hyphens(id: Seq<char>)
    ensures
        is_addon_id(id) <==> is_small_letters_digits_and_hyphens(id),
{
    if is_addon_id(id) {
        assert forall|i: int| 0 <= i < id.len() implies {
            ||| 'a' <= #[trigger] id[i] <= 'z'
            ||| '0' <= id[i] <= '9'
            ||| id[i] == '-'
        } by {
            assert(is_id_char(id[i]));
        }
    }
}

/// An archive is accepted exactly if it has the size that the registry gives and the
/// digest can be read from the hexadecimal digits that the registry gives. Otherwise the
/// two sizes are told, or that the digest is another.
pub proof fn archives_must_have_the_size_and_the_digest(
    size: nat,
    digest: Seq<u8>,
    release: RegistryVersion,
)
    ensures
        archive_fault(size, digest, release) is None <==> size == release.file_size
            && writes_in_hex(release.sha256@, digest),
        size != release.file_size ==> archive_fault(size, digest, release) == Some(
            "ファイルサイズが一致しません (expected "@ + decimal(release.file_size as nat) + ", got "@
                + decimal(size) + ")"@,
        ),
        size == release.file_size && !writes_in_hex(release.sha256@, digest) ==> archive_fault(
            size,
            digest,
            release,
        ) == Some("SHA-256が一致しません"@),
{
    hexadecimals_can_be_read_back(digest, release.sha256@);
}

proof fn lemma_without_slashes(base: Seq<char>, count: nat)
    requires
        base.len() > 0 ==> base.last() != '/',
    ensures
        without_slashes(base + Seq::new(count, |i: int| '/')) == base,
    decreases count,
{
    let slashes = Seq::new(count, |i: int| '/');
    if count == 0 {
        assert(base + slashes =~= base);
    } else {
        let fewer = Seq::new((count - 1) as nat, |i: int| '/');
        assert((base + slashes).drop_last() =~= base + fewer);
        lemma_without_slashes(base, (count - 1) as nat);
    }
}

/// Addresses that name a scheme are kept. All others are put behind the registry's
/// address with one slash between, whether they begin with a slash or not, and however
/// many slashes end the registry's address.
pub proof fn addresses_are_put_behind_the_registry(base: Seq<char>, count: nat, path: Seq<char>)
    requires
        base.len() > 0 ==> base.last() != '/',
    ensures
        ({
            let registry_url = base + Seq::new(count, |i: int| '/');
            let has_scheme = "http://"@.is_prefix_of(path) || "https://"@.is_prefix_of(path);
            &&& has_scheme ==> resolved_url(registry_url, path) == path
            &&& !has_scheme && (path.len() == 0 || path[0] != '/') ==> resolved_url(
                registry_url,
                path,
            ) == base + seq!['/'] + path
            &&& resolved_url(registry_url, seq!['/'] + path) == base + seq!['/'] + path
        }),
{
    lemma_without_slashes(base, count);
    let rooted = seq!['/'] + path;
    reveal_strlit("http://");
    reveal_strlit("https://");
    assert(rooted[0] == '/');
    if "http://"@.is_prefix_of(rooted) {
        assert(rooted.subrange(0, "http://"@.len() as int)[0] == 'h');
    }
    if "https://"@.is_prefix_of(rooted) {
        assert(rooted.subrange(0, "https://"@.len() as int)[0] == 'h');
    }
    assert(base + (seq!['/'] + path) =~= base + seq!['/'] + path);
}

} // verus!
