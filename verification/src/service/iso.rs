//! Disk images: what a directory entry makes, which system an image holds
//! by its name, and the SHA-256 of its content.
use vstd::prelude::*;
use vstd::string::StringExecFns;
use crate::domain::iso::{BootMode, IsoImage};
use crate::infra::clock::now_micros;
use crate::infra::digest::{sha256_digest, sha256_of};
use crate::infra::ids::new_v4_id;
use crate::infra::pattern::{regex_captures, regex_captures_view};
use crate::text::{
    chars_of, contains_chars, has_substring, lowercase_of, replace_chars, replace_each, str_equal,
    string_from_chars, to_lowercase,
};

verus! {

/// The systems recognised in image names: a keyword looked for in the
/// lowercase name, and the system's name. The first keyword found wins.
pub open spec fn known_systems() -> Seq<(&'static str, &'static str)> {
    seq![
        ("ubuntu", "Ubuntu"),
        ("debian", "Debian"),
        ("fedora", "Fedora"),
        ("arch", "Arch Linux"),
        ("centos", "CentOS"),
        ("rocky", "Rocky Linux"),
        ("almalinux", "AlmaLinux"),
        ("proxmox", "Proxmox VE"),
        ("truenas", "TrueNAS"),
        ("opnsense", "OPNsense"),
        ("pfsense", "pfSense"),
        ("esxi", "VMware ESXi"),
        ("windows", "Windows"),
        ("winpe", "Windows PE"),
        ("memtest", "Memtest86+"),
        ("clonezilla", "Clonezilla"),
        ("rescuezilla", "Rescuezilla"),
        ("systemrescue", "SystemRescue"),
        ("zimaos", "ZimaOS"),
        ("casaos", "CasaOS"),
        ("kali", "Kali Linux"),
        ("mint", "Linux Mint"),
        ("pop-os", "Pop!_OS"),
        ("manjaro", "Manjaro"),
    ]
}

fn known_system_list() -> (r: Vec<(&'static str, &'static str)>)
    ensures
        r@ == known_systems(),
{
    vec![
        ("ubuntu", "Ubuntu"),
        ("debian", "Debian"),
        ("fedora", "Fedora"),
        ("arch", "Arch Linux"),
        ("centos", "CentOS"),
        ("rocky", "Rocky Linux"),
        ("almalinux", "AlmaLinux"),
        ("proxmox", "Proxmox VE"),
        ("truenas", "TrueNAS"),
        ("opnsense", "OPNsense"),
        ("pfsense", "pfSense"),
        ("esxi", "VMware ESXi"),
        ("windows", "Windows"),
        ("winpe", "Windows PE"),
        ("memtest", "Memtest86+"),
        ("clonezilla", "Clonezilla"),
        ("rescuezilla", "Rescuezilla"),
        ("systemrescue", "SystemRescue"),
        ("zimaos", "ZimaOS"),
        ("casaos", "CasaOS"),
        ("kali", "Kali Linux"),
        ("mint", "Linux Mint"),
        ("pop-os", "Pop!_OS"),
        ("manjaro", "Manjaro"),
    ]
}

/// The first entry, from position `i` on, of `known_systems` whose keyword
/// occurs in `lower`.
pub open spec fn first_known_from(lower: Seq<char>, i: int) -> Option<int>
    decreases known_systems().len() - i,
{
    if i < 0 || i >= known_systems().len() {
        None
    } else if has_substring(lower, known_systems()[i].0@) {
        Some(i)
    } else {
        first_known_from(lower, i + 1)
    }
}

/// The pattern of a version in an image name: two or three numbers
/// separated by `.`, `_` or `-`.
pub const VERSION_PATTERN: &'static str = r"(\d+[._-]\d+(?:[._-]\d+)?)";

/// The version that the whole match of `VERSION_PATTERN` gives, with `_`
/// and `-` turned into `.`.
pub open spec fn version_from(caps: Option<Seq<Option<Seq<char>>>>) -> Option<Seq<char>> {
    match caps {
        Some(g) => if g.len() > 0 && g[0] is Some {
            Some(replace_each(g[0]->Some_0, seq!['_', '-'], '.'))
        } else {
            None
        },
        None => None,
    }
}

/// The version found in a (lowercase) image name.
pub open spec fn version_in(lower: Seq<char>) -> Option<Seq<char>> {
    version_from(regex_captures_view(VERSION_PATTERN@, lower))
}

/// The system and version named in a lowercase image name: the first known
/// system whose keyword occurs in it, and then the version found in it;
/// neither when no keyword occurs.
pub open spec fn system_in(lower: Seq<char>) -> (Option<Seq<char>>, Option<Seq<char>>) {
    match first_known_from(lower, 0) {
        Some(i) => (Some(known_systems()[i].1@), version_in(lower)),
        None => (None, None),
    }
}

/// The image category that a lowercase extension names.
pub open spec fn category_of(ext: Option<Seq<char>>) -> Option<Seq<char>> {
    match ext {
        Some(e) => if e == "iso"@ {
            Some("ISO Image"@)
        } else if e == "img"@ {
            Some("Disk Image"@)
        } else if e == "raw"@ {
            Some("Raw Image"@)
        } else if e == "bin"@ {
            Some("Binary Image"@)
        } else if e == "xz"@ || e == "gz"@ {
            Some("Compressed Image"@)
        } else {
            None
        },
        None => None,
    }
}

/// Whether a lowercase extension is that of a disk image the station lists.
pub open spec fn is_image_extension(ext: Option<Seq<char>>) -> bool {
    category_of(ext) is Some
}

/// The lowercase hexadecimal digit of `v` (below 16).
pub open spec fn hex_char(v: nat) -> char {
    if v < 10 {
        (48 + v) as char
    } else {
        (87 + v) as char
    }
}

/// Bytes written as lowercase hexadecimal, two digits per byte, most
/// significant digit first.
pub open spec fn hex_lower(bytes: Seq<u8>) -> Seq<char>
    decreases bytes.len(),
{
    if bytes.len() == 0 {
        Seq::empty()
    } else {
        hex_lower(bytes.drop_last()).push(hex_char((bytes.last() / 16) as nat)).push(
            hex_char((bytes.last() % 16) as nat),
        )
    }
}

fn hex_digit(v: u8) -> (r: char)
    requires
        v < 16,
    ensures
        r == hex_char(v as nat),
{
    if v < 10 {
        (48 + v) as char
    } else {
        (87 + v) as char
    }
}

/// Writes bytes as lowercase hexadecimal, as `format!("{:x}", digest)`
/// does for a digest.
pub fn to_hex_lower(bytes: &[u8]) -> (r: String)
    ensures
        r@ == hex_lower(bytes@),
{
    let mut out: Vec<char> = Vec::new();
    let mut k: usize = 0;
    while k < bytes.len()
        invariant
            k <= bytes@.len(),
            out@ == hex_lower(bytes@.take(k as int)),
        decreases bytes@.len() - k,
    {
        let b = bytes[k];
        proof {
            let t = bytes@.take(k + 1);
            assert(t.drop_last() =~= bytes@.take(k as int));
            assert(t.last() == b);
        }
        out.push(hex_digit(b / 16));
        out.push(hex_digit(b % 16));
        k = k + 1;
    }
    assert(bytes@.take(bytes@.len() as int) =~= bytes@);
    string_from_chars(out.as_slice())
}

/// The view of an optional string slice.
pub open spec fn opt_str_view(s: Option<&str>) -> Option<Seq<char>> {
    match s {
        Some(t) => Some(t@),
        None => None,
    }
}

/// Whether `img` is the image that a directory entry makes, with
/// identifier `id`, found at `now`: its name is the file name (`unknown`
/// when the name is not valid Unicode), its system and version are read
/// from that name, its category from the lowercase extension `ext`, and its
/// boot mode is unknown; nothing else is known of it yet.
pub open spec fn is_entry_image(
    img: IsoImage,
    file_name: Option<Seq<char>>,
    ext: Option<Seq<char>>,
    file_path: Seq<char>,
    file_size_bytes: u64,
    id: u128,
    now: i64,
) -> bool {
    let name = match file_name {
        Some(n) => n,
        None => "unknown"@,
    };
    &&& img.id == id
    &&& img.filename@ == name
    &&& img.file_path@ == file_path
    &&& img.file_size_bytes == file_size_bytes
    &&& img.sha256 is None
    &&& img.md5 is None
    &&& (img.detected_os.deep_view(), img.detected_version.deep_view()) == system_in(
        lowercase_of(name),
    )
    &&& img.boot_mode == Some(BootMode::Unknown)
    &&& img.category.deep_view() == category_of(ext)
    &&& img.tags@.len() == 0
    &&& img.description is None
    &&& !img.is_favorite
    &&& img.scanned_at == Some(now)
    &&& img.created_at == now
    &&& img.updated_at == now
}

/// Identifies disk images and the systems they hold.
pub struct IsoService;

impl IsoService {
    /// The SHA-256 of an image's content, in lowercase hexadecimal.
    pub fn sha256_hex(content: &[u8]) -> (r: String)
        ensures
            r@ == hex_lower(sha256_of(content@)),
    {
        let digest = sha256_digest(content);
        to_hex_lower(digest.as_slice())
    }

    /// The lowercase form of a name or extension.
    pub fn lowercase(s: &str) -> (r: String)
        ensures
            r@ == lowercase_of(s@),
    {
        to_lowercase(s)
    }

    /// The system and version named in an image's file name: the name is
    /// lowercased, then `detect_os_in_lowercase` reads it.
    pub fn detect_os_from_filename(filename: &str) -> (r: (Option<String>, Option<String>))
        ensures
            (r.0.deep_view(), r.1.deep_view()) == system_in(lowercase_of(filename@)),
    {
        let lower = Self::lowercase(filename);
        Self::detect_os_in_lowercase(lower.as_str())
    }

    /// The system and version named in a lowercase image name:
    /// `system_in`.
    pub fn detect_os_in_lowercase(lower: &str) -> (r: (Option<String>, Option<String>))
        ensures
            (r.0.deep_view(), r.1.deep_view()) == system_in(lower@),
    {
        let known = known_system_list();
        let name = chars_of(lower);
        let mut i: usize = 0;
        while i < known.len()
            invariant
                known@ == known_systems(),
                name@ == lower@,
                i <= known@.len(),
                first_known_from(lower@, 0) == first_known_from(lower@, i as int),
            decreases known@.len() - i,
        {
            let (keyword, system) = known[i];
            let kw = chars_of(keyword);
            if contains_chars(name.as_slice(), kw.as_slice()) {
                let version = Self::extract_version(lower);
                return (Some(String::from_str(system)), version);
            }
            i = i + 1;
        }
        (None, None)
    }

    /// The version found in an image name: the whole match of
    /// `VERSION_PATTERN`, then `version_from_match`.
    pub fn extract_version(filename: &str) -> (r: Option<String>)
        ensures
            r.deep_view() == version_in(filename@),
    {
        let caps = regex_captures(VERSION_PATTERN, filename);
        Self::version_from_match(caps)
    }

    /// The version that the capture groups of `VERSION_PATTERN` give:
    /// `version_from`.
    pub fn version_from_match(caps: Option<Vec<Option<String>>>) -> (r: Option<String>)
        ensures
            r.deep_view() == version_from(caps.deep_view()),
    {
        match caps {
            Some(groups) => {
                if groups.len() == 0 {
                    return None;
                }
                let ghost gv = groups.deep_view();
                assert(gv[0] == groups@[0].deep_view());
                match &groups[0] {
                    Some(m) => {
                        let cs = chars_of(m.as_str());
                        let seps = vec!['_', '-'];
                        assert(seps@ =~= seq!['_', '-']);
                        let dotted = replace_chars(cs.as_slice(), seps.as_slice(), '.');
                        Some(string_from_chars(dotted.as_slice()))
                    },
                    None => None,
                }
            },
            None => None,
        }
    }

    /// The category of an image by its lowercase extension: `category_of`.
    pub fn guess_category(ext: Option<&str>) -> (r: Option<String>)
        ensures
            r.deep_view() == category_of(opt_str_view(ext)),
    {
        match ext {
            Some(e) => {
                if str_equal(e, "iso") {
                    Some(String::from_str("ISO Image"))
                } else if str_equal(e, "img") {
                    Some(String::from_str("Disk Image"))
                } else if str_equal(e, "raw") {
                    Some(String::from_str("Raw Image"))
                } else if str_equal(e, "bin") {
                    Some(String::from_str("Binary Image"))
                } else if str_equal(e, "xz") || str_equal(e, "gz") {
                    Some(String::from_str("Compressed Image"))
                } else {
                    None
                }
            },
            None => None,
        }
    }

    /// The image that a directory entry makes, found now with a fresh
    /// identifier: the extension is lowercased, then `image_from_entry_at`
    /// decides.
    pub fn image_from_entry(
        file_name: Option<&str>,
        extension: Option<&str>,
        file_path: String,
        file_size_bytes: u64,
    ) -> (r: Option<IsoImage>)
        ensures
            ({
                let ext = match extension {
                    Some(e) => Some(lowercase_of(e@)),
                    None => None,
                };
                &&& r is Some == is_image_extension(ext)
                &&& r matches Some(img) ==> is_entry_image(
                    img,
                    opt_str_view(file_name),
                    ext,
                    file_path@,
                    file_size_bytes,
                    img.id,
                    img.created_at,
                )
            }),
    {
        let lower_ext = match extension {
            Some(e) => Some(Self::lowercase(e)),
            None => None,
        };
        let id = new_v4_id();
        let now = now_micros();
        match &lower_ext {
            Some(e) => Self::image_from_entry_at(
                id,
                now,
                file_name,
                Some(e.as_str()),
                file_path,
                file_size_bytes,
            ),
            None => Self::image_from_entry_at(id, now, file_name, None, file_path, file_size_bytes),
        }
    }

    /// The image that a directory entry makes, with identifier `id`, found
    /// at `now`: only an entry whose lowercase extension names an image
    /// category makes one, as `is_entry_image` describes it.
    pub fn image_from_entry_at(
        id: u128,
        now: i64,
        file_name: Option<&str>,
        lower_ext: Option<&str>,
        file_path: String,
        file_size_bytes: u64,
    ) -> (r: Option<IsoImage>)
        ensures
            r is Some == is_image_extension(opt_str_view(lower_ext)),
            r matches Some(img) ==> is_entry_image(
                img,
                opt_str_view(file_name),
                opt_str_view(lower_ext),
                file_path@,
                file_size_bytes,
                id,
                now,
            ),
    {
        let category = Self::guess_category(lower_ext);
        match category {
            None => None,
            Some(cat) => {
                let filename = match file_name {
                    Some(n) => String::from_str(n),
                    None => String::from_str("unknown"),
                };
                let (detected_os, detected_version) = Self::detect_os_from_filename(
                    filename.as_str(),
                );
                Some(
                    IsoImage {
                        id,
                        filename,
                        file_path,
                        file_size_bytes,
                        sha256: None,
                        md5: None,
                        detected_os,
                        detected_version,
                        boot_mode: Some(BootMode::Unknown),
                        category: Some(cat),
                        tags: Vec::new(),
                        description: None,
                        is_favorite: false,
                        scanned_at: Some(now),
                        created_at: now,
                        updated_at: now,
                    },
                )
            },
        }
    }
}

proof fn lemma_first_known_from(lower: Seq<char>, k: int, i: int)
    requires
        0 <= k <= i < known_systems().len(),
        has_substring(lower, known_systems()[i].0@),
        forall|j: int| 0 <= j < i ==> !has_substring(lower, #[trigger] known_systems()[j].0@),
    ensures
        first_known_from(lower, k) == Some(i),
    decreases i - k,
{
    if k < i {
        lemma_first_known_from(lower, k + 1, i);
    }
}

proof fn lemma_first_known_none(lower: Seq<char>, k: int)
    requires
        0 <= k,
        forall|j: int|
            0 <= j < known_systems().len() ==> !has_substring(lower, #[trigger] known_systems()[j].0@),
    ensures
        first_known_from(lower, k) == None::<int>,
    decreases known_systems().len() - k,
{
    if k < known_systems().len() {
        lemma_first_known_none(lower, k + 1);
    }
}

/// Every entry of the table of known systems is detected: a lowercase name
/// that contains the keyword of entry `i` and no keyword of an earlier
/// entry names the system of entry `i`, with the version found in the name;
/// a name that contains no keyword names no system and no version.
pub proof fn law_every_known_system_detected(lower: Seq<char>, i: int)
    ensures
        0 <= i < known_systems().len() && has_substring(lower, known_systems()[i].0@) && (forall|
            j: int,
        | 0 <= j < i ==> !has_substring(lower, #[trigger] known_systems()[j].0@)) ==> system_in(
            lower,
        ) == (Some(known_systems()[i].1@), version_in(lower)),
        (forall|j: int|
            0 <= j < known_systems().len() ==> !has_substring(lower, #[trigger] known_systems()[j].0@))
            ==> system_in(lower) == (None::<Seq<char>>, None::<Seq<char>>),
{
    if 0 <= i < known_systems().len() && has_substring(lower, known_systems()[i].0@) && (forall|
        j: int,
    | 0 <= j < i ==> !has_substring(lower, #[trigger] known_systems()[j].0@)) {
        lemma_first_known_from(lower, 0, i);
    }
    if forall|j: int|
        0 <= j < known_systems().len() ==> !has_substring(lower, #[trigger] known_systems()[j].0@) {
        lemma_first_known_none(lower, 0);
    }
}

} // verus!
