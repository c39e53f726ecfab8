//! What a file's contents say about it: its SHA-256, and from its ELF headers
//! the machine it is built for, how it is linked and which libraries it needs.
use vstd::prelude::*;
use sha2::Digest;
use crate::format::{decimal, decimal_string};
use crate::options::Options;
use crate::text::{owned};

verus! {

/// The facts read from an ELF file's headers.
pub struct ElfFacts {
    /// `e_machine`: the architecture.
    pub machine: u16,
    /// `e_type`: executable, shared object, ...
    pub e_type: u16,
    /// The shared libraries it needs (`DT_NEEDED`), in order.
    pub libraries: Vec<String>,
    /// The program interpreter it asks for, if any.
    pub interpreter: Option<String>,
}

/// What a byte string parses as.
pub enum BinaryKind {
    /// An ELF file.
    Elf(ElfFacts),
    /// Another object format (PE, Mach-O, archive, ...) or an unknown magic number.
    OtherObject,
    /// Not parsable as an object file.
    Unparsable,
}

/// The mathematical content of `ElfFacts`.
pub ghost struct ElfFactsView {
    pub machine: u16,
    pub e_type: u16,
    pub libraries: Seq<Seq<char>>,
    pub interpreter: Option<Seq<char>>,
}

/// The mathematical content of `BinaryKind`.
pub ghost enum BinaryKindView {
    Elf(ElfFactsView),
    OtherObject,
    Unparsable,
}

impl View for ElfFacts {
    type V = ElfFactsView;

    open spec fn view(&self) -> ElfFactsView {
        ElfFactsView {
            machine: self.machine,
            e_type: self.e_type,
            libraries: self.libraries.deep_view(),
            interpreter: match self.interpreter {
                Some(s) => Some(s@),
                None => None,
            },
        }
    }
}

impl View for BinaryKind {
    type V = BinaryKindView;

    open spec fn view(&self) -> BinaryKindView {
        match self {
            BinaryKind::Elf(f) => BinaryKindView::Elf(f@),
            BinaryKind::OtherObject => BinaryKindView::OtherObject,
            BinaryKind::Unparsable => BinaryKindView::Unparsable,
        }
    }
}

/// Architecture, linkage and libraries as they are shown for a match.
pub struct BinaryReport {
    pub arch: Option<String>,
    pub security: Option<String>,
    pub libs: Option<Vec<String>>,
}

/// What is shown of a file copied out of a container image.
pub struct FileReport {
    pub size: Option<u64>,
    pub hash: Option<String>,
    pub binary: BinaryReport,
}

/// The mathematical content of a `BinaryReport`.
pub ghost struct BinaryReportView {
    pub arch: Option<Seq<char>>,
    pub security: Option<Seq<char>>,
    pub libs: Option<Seq<Seq<char>>>,
}

impl View for BinaryReport {
    type V = BinaryReportView;

    open spec fn view(&self) -> BinaryReportView {
        BinaryReportView {
            arch: match self.arch {
                Some(s) => Some(s@),
                None => None,
            },
            security: match self.security {
                Some(s) => Some(s@),
                None => None,
            },
            libs: match self.libs {
                Some(v) => Some(v.deep_view()),
                None => None,
            },
        }
    }
}

/// What `goblin::Object::parse` makes of `bytes`.
pub uninterp spec fn goblin_object(bytes: Seq<u8>) -> BinaryKindView;

/// The name that `goblin::elf::header::machine_to_str` gives a machine number.
pub uninterp spec fn goblin_machine_name(machine: u16) -> Seq<char>;

/// The SHA-256 digest of `bytes`, as `sha2::Sha256::digest` computes it.
pub uninterp spec fn sha256(bytes: Seq<u8>) -> Seq<u8>;

/// Two lower-case hexadecimal digits for each byte, as `hex::encode` writes them.
pub open spec fn hex_lower(bytes: Seq<u8>) -> Seq<char>
    decreases bytes.len(),
{
    if bytes.len() == 0 {
        Seq::empty()
    } else {
        hex_lower(bytes.drop_last()) + seq![
            crate::format::lower_digits()[(bytes.last() / 16) as int],
            crate::format::lower_digits()[(bytes.last() % 16) as int],
        ]
    }
}

/// Calls `goblin::Object::parse` and keeps what the reports need of an ELF file.
/// Its result, a function of the bytes alone, is named `goblin_object`.
#[verifier::external_body]
fn parse_object(bytes: &[u8]) -> (k: BinaryKind)
    ensures
        k@ == goblin_object(bytes@),
{
    match goblin::Object::parse(bytes) {
        Ok(goblin::Object::Elf(elf)) => BinaryKind::Elf(
            ElfFacts {
                machine: elf.header.e_machine,
                e_type: elf.header.e_type,
                libraries: elf.libraries.iter().map(|s| s.to_string()).collect(),
                interpreter: elf.interpreter.map(|s| s.to_string()),
            },
        ),
        Ok(_) => BinaryKind::OtherObject,
        Err(_) => BinaryKind::Unparsable,
    }
}

/// Calls `goblin::elf::header::machine_to_str`; its result is named `goblin_machine_name`.
#[verifier::external_body]
fn machine_name(machine: u16) -> (s: String)
    ensures
        s@ == goblin_machine_name(machine),
{
    goblin::elf::header::machine_to_str(machine).to_string()
}

/// Calls `sha2::Sha256::digest`; its result is named `sha256`, and as for
/// every SHA-256 digest it is 32 bytes long.
#[verifier::external_body]
fn sha256_digest(bytes: &[u8]) -> (d: Vec<u8>)
    ensures
        d@ == sha256(bytes@),
        d@.len() == 32,
{
    sha2::Sha256::digest(bytes).to_vec()
}

/// Calls `hex::encode`, which writes two lower-case hexadecimal digits per byte.
#[verifier::external_body]
fn hex_encode(bytes: &[u8]) -> (s: String)
    ensures
        s@ == hex_lower(bytes@),
{
    hex::encode(bytes)
}

/// What a file is: an ELF file, another object file, or neither.
pub fn parse_binary(bytes: &[u8]) -> (k: BinaryKind)
    ensures
        k@ == goblin_object(bytes@),
{
    parse_object(bytes)
}

/// The SHA-256 of `bytes` in lower-case hexadecimal.
pub fn sha256_hex(bytes: &[u8]) -> (s: String)
    ensures
        s@ == hex_lower(sha256(bytes@)),
        s@.len() == 64,
{
    let d = sha256_digest(bytes);
    proof {
        lemma_hex_lower_len(d@);
    }
    hex_encode(d.as_slice())
}

/// Hexadecimal writes two characters per byte.
pub proof fn lemma_hex_lower_len(bytes: Seq<u8>)
    ensures
        hex_lower(bytes).len() == 2 * bytes.len(),
    decreases bytes.len(),
{
    if bytes.len() > 0 {
        lemma_hex_lower_len(bytes.drop_last());
    }
}

/// How a file is linked: dynamically where it needs libraries or an interpreter.
pub open spec fn linkage(f: ElfFactsView) -> Seq<char> {
    if f.libraries.len() > 0 || f.interpreter is Some {
        "dynamic"@
    } else {
        "static"@
    }
}

/// The security line of a local file: its linkage, and whether its mode (where
/// known) has the setuid and setgid bits.
pub open spec fn security_label(f: ElfFactsView, mode: Option<u32>) -> Seq<char> {
    "linked: "@ + linkage(f) + (if mode matches Some(m) && m & 0o4000 != 0 {
        ", setuid"@
    } else {
        Seq::empty()
    }) + (if mode matches Some(m) && m & 0o2000 != 0 {
        ", setgid"@
    } else {
        Seq::empty()
    })
}

/// The security label reads `linked: dynamic` or `linked: static`, then
/// `, setuid` exactly when the mode is known and has the setuid bit 0o4000,
/// then `, setgid` exactly when it has the setgid bit 0o2000: the label ends
/// with `, setgid` exactly for the setgid bit, and what precedes that ending
/// ends with `, setuid` exactly for the setuid bit.
pub proof fn lemma_security_label_bits(f: ElfFactsView, mode: Option<u32>)
    ensures
        ("linked: dynamic"@).is_prefix_of(security_label(f, mode)) || ("linked: static"@).is_prefix_of(
            security_label(f, mode),
        ),
        (", setgid"@).is_suffix_of(security_label(f, mode)) <==> (mode matches Some(m) && m
            & 0o2000 != 0),
        ({
            let l = security_label(f, mode);
            let head = if (", setgid"@).is_suffix_of(l) {
                l.take(l.len() - 8)
            } else {
                l
            };
            (", setuid"@).is_suffix_of(head) <==> (mode matches Some(m) && m & 0o4000 != 0)
        }),
{
    reveal_strlit("linked: ");
    reveal_strlit("dynamic");
    reveal_strlit("static");
    reveal_strlit("linked: dynamic");
    reveal_strlit("linked: static");
    reveal_strlit(", setuid");
    reveal_strlit(", setgid");
    let k = "linked: "@ + linkage(f);
    let u: Seq<char> = if mode matches Some(m) && m & 0o4000 != 0 { ", setuid"@ } else { Seq::empty() };
    let g: Seq<char> = if mode matches Some(m) && m & 0o2000 != 0 { ", setgid"@ } else { Seq::empty() };
    let l = security_label(f, mode);
    assert(l == k + u + g);
    let gid = mode matches Some(m) && m & 0o2000 != 0;
    let uid = mode matches Some(m) && m & 0o4000 != 0;
    // The prefix.
    if f.libraries.len() > 0 || f.interpreter is Some {
        assert(("linked: dynamic"@).is_prefix_of(l)) by {
            assert forall|i: int| 0 <= i < 15 implies l[i] == "linked: dynamic"@[i] by {
                assert(l[i] == k[i]);
            }
        }
    } else {
        assert(("linked: static"@).is_prefix_of(l)) by {
            assert forall|i: int| 0 <= i < 14 implies l[i] == "linked: static"@[i] by {
                assert(l[i] == k[i]);
            }
        }
    }
    // The ending `, setgid`.
    if gid {
        assert((", setgid"@).is_suffix_of(l)) by {
            assert forall|i: int| 0 <= i < 8 implies l[l.len() - 8 + i] == ", setgid"@[i] by {}
        }
        assert(l.take(l.len() - 8) =~= k + u);
    } else {
        assert(l =~= k + u);
        if (", setgid"@).is_suffix_of(l) {
            // The last-but-two character of `, setgid` is `g`, which no other ending has there.
            assert(l[l.len() - 3] == ", setgid"@[5]);
            if uid {
                assert(l[l.len() - 3] == ", setuid"@[5]);
            } else {
                assert(l[l.len() - 3] == k[k.len() - 3]);
                assert(k[k.len() - 3] == linkage(f)[linkage(f).len() - 3]);
            }
        }
    }
    let head = if (", setgid"@).is_suffix_of(l) { l.take(l.len() - 8) } else { l };
    assert(head =~= k + u);
    if uid {
        assert((", setuid"@).is_suffix_of(head)) by {
            assert forall|i: int| 0 <= i < 8 implies head[head.len() - 8 + i] == ", setuid"@[i] by {}
        }
    } else {
        assert(head =~= k);
        if (", setuid"@).is_suffix_of(head) {
            assert(head[head.len() - 3] == ", setuid"@[5]);
            assert(head[head.len() - 3] == linkage(f)[linkage(f).len() - 3]);
        }
    }
}

/// The architecture name shown for a file inside a container image.
pub open spec fn container_arch(machine: u16) -> Seq<char> {
    if machine == 62 {
        "x86_64"@
    } else if machine == 183 {
        "aarch64"@
    } else if machine == 3 {
        "x86"@
    } else if machine == 40 {
        "arm"@
    } else {
        "unknown("@ + decimal(machine as nat) + ")"@
    }
}

/// The label shown where a file is not an ELF file.
pub open spec fn not_elf() -> Seq<char> {
    "Not an ELF binary"@
}

/// The report on a local file's binary form: `parsed` is what its contents
/// parse as, `None` where the file could not be read; `mode` is its mode,
/// where its metadata could be read.
pub open spec fn local_report(opts: Options, parsed: Option<BinaryKindView>, mode: Option<u32>) -> BinaryReportView {
    let all = opts.everything();
    if !(opts.arch || opts.security || opts.libs || all) {
        BinaryReportView { arch: None, security: None, libs: None }
    } else {
        match parsed {
            None => BinaryReportView {
                arch: if opts.arch || opts.security || opts.libs {
                    Some("Unreadable"@)
                } else {
                    None
                },
                security: None,
                libs: None,
            },
            Some(BinaryKindView::Elf(f)) => BinaryReportView {
                arch: if opts.arch || all {
                    Some(goblin_machine_name(f.machine))
                } else {
                    None
                },
                security: if opts.security || all {
                    Some(security_label(f, mode))
                } else {
                    None
                },
                libs: if opts.libs || all {
                    Some(f.libraries)
                } else {
                    None
                },
            },
            Some(_) => not_elf_report(opts),
        }
    }
}

/// The report where a file is not an ELF file: the label in each field asked for.
pub open spec fn not_elf_report(opts: Options) -> BinaryReportView {
    BinaryReportView {
        arch: if opts.arch {
            Some(not_elf())
        } else {
            None
        },
        security: if opts.security {
            Some(not_elf())
        } else {
            None
        },
        libs: if opts.libs {
            Some(seq!["(Not an ELF binary)"@])
        } else {
            None
        },
    }
}

/// The report on a file copied out of a container image, from what its contents parse as.
pub open spec fn container_report(opts: Options, parsed: BinaryKindView) -> BinaryReportView {
    match parsed {
        BinaryKindView::Elf(f) => BinaryReportView {
            arch: if opts.arch || opts.verbose {
                Some(container_arch(f.machine))
            } else {
                None
            },
            security: if opts.security || opts.verbose {
                Some(
                    if f.e_type == 3 {
                        "PIE"@
                    } else {
                        Seq::empty()
                    },
                )
            } else {
                None
            },
            libs: if opts.libs || opts.verbose {
                Some(f.libraries)
            } else {
                None
            },
        },
        BinaryKindView::OtherObject => BinaryReportView { arch: None, security: None, libs: None },
        BinaryKindView::Unparsable => not_elf_report(opts),
    }
}

/// The report where nothing is known.
fn empty_report() -> (r: BinaryReport)
    ensures
        r@ == (BinaryReportView { arch: None, security: None, libs: None }),
{
    BinaryReport { arch: None, security: None, libs: None }
}

/// The report where a file is not an ELF file.
fn not_elf_binary_report(opts: &Options) -> (r: BinaryReport)
    ensures
        r@ == not_elf_report(*opts),
{
    let arch = if opts.arch {
        Some(owned("Not an ELF binary"))
    } else {
        None
    };
    let security = if opts.security {
        Some(owned("Not an ELF binary"))
    } else {
        None
    };
    let libs = if opts.libs {
        let mut v: Vec<String> = Vec::new();
        v.push(owned("(Not an ELF binary)"));
        assert(v.deep_view() =~= seq!["(Not an ELF binary)"@]);
        Some(v)
    } else {
        None
    };
    BinaryReport { arch, security, libs }
}

/// A copy of a list of strings.
fn copy_strings(v: &Vec<String>) -> (r: Vec<String>)
    ensures
        r.deep_view() == v.deep_view(),
{
    let mut r: Vec<String> = Vec::new();
    for i in 0..v.len()
        invariant
            r.len() == i,
            forall|k: int| 0 <= k < i ==> #[trigger] r@[k]@ == v@[k]@,
    {
        r.push(v[i].clone());
    }
    assert(r.deep_view() =~= v.deep_view());
    r
}

/// The security line of a local file.
fn security_line(f: &ElfFacts, mode: Option<u32>) -> (s: String)
    ensures
        s@ == security_label(f@, mode),
{
    let mut s = owned("linked: ");
    if f.libraries.len() > 0 || f.interpreter.is_some() {
        s.append("dynamic");
    } else {
        s.append("static");
    }
    if let Some(m) = mode {
        if m & 0o4000 != 0 {
            s.append(", setuid");
        }
    }
    if let Some(m) = mode {
        if m & 0o2000 != 0 {
            s.append(", setgid");
        }
    }
    s
}

/// The report on a local file's binary form, from what its contents parse as
/// (`None` where the file could not be read) and its mode.
pub fn local_binary_report(opts: &Options, parsed: Option<&BinaryKind>, mode: Option<u32>) -> (r: BinaryReport)
    ensures
        r@ == local_report(
            *opts,
            match parsed {
                Some(k) => Some(k@),
                None => None,
            },
            mode,
        ),
{
    let all = opts.fetch_all();
    if !(opts.arch || opts.security || opts.libs || all) {
        return empty_report();
    }
    match parsed {
        None => {
            let arch = if opts.arch || opts.security || opts.libs {
                Some(owned("Unreadable"))
            } else {
                None
            };
            BinaryReport { arch, security: None, libs: None }
        },
        Some(BinaryKind::Elf(f)) => {
            let arch = if opts.arch || all {
                Some(machine_name(f.machine))
            } else {
                None
            };
            let security = if opts.security || all {
                Some(security_line(f, mode))
            } else {
                None
            };
            let libs = if opts.libs || all {
                Some(copy_strings(&f.libraries))
            } else {
                None
            };
            BinaryReport { arch, security, libs }
        },
        Some(_) => not_elf_binary_report(opts),
    }
}

/// The report on a local file's binary form from its contents (`None` where the
/// file could not be read) and its mode.
pub fn inspect_local(opts: &Options, contents: Option<&Vec<u8>>, mode: Option<u32>) -> (r: BinaryReport)
    ensures
        r@ == local_report(
            *opts,
            match contents {
                Some(b) => Some(goblin_object(b@)),
                None => None,
            },
            mode,
        ),
{
    match contents {
        Some(b) => {
            let k = parse_object(b.as_slice());
            local_binary_report(opts, Some(&k), mode)
        },
        None => local_binary_report(opts, None, mode),
    }
}

/// The architecture name shown for a file inside a container image.
fn container_arch_name(machine: u16) -> (s: String)
    ensures
        s@ == container_arch(machine),
{
    if machine == 62 {
        owned("x86_64")
    } else if machine == 183 {
        owned("aarch64")
    } else if machine == 3 {
        owned("x86")
    } else if machine == 40 {
        owned("arm")
    } else {
        let mut s = owned("unknown(");
        let n = decimal_string(machine as u64);
        s.append(n.as_str());
        s.append(")");
        s
    }
}

/// The report on a file copied out of a container image, from what its contents parse as.
pub fn container_binary_report(opts: &Options, parsed: &BinaryKind) -> (r: BinaryReport)
    ensures
        r@ == container_report(*opts, parsed@),
{
    match parsed {
        BinaryKind::Elf(f) => {
            let arch = if opts.arch || opts.verbose {
                Some(container_arch_name(f.machine))
            } else {
                None
            };
            let security = if opts.security || opts.verbose {
                if f.e_type == 3 {
                    Some(owned("PIE"))
                } else {
                    Some(String::new())
                }
            } else {
                None
            };
            let libs = if opts.libs || opts.verbose {
                Some(copy_strings(&f.libraries))
            } else {
                None
            };
            BinaryReport { arch, security, libs }
        },
        BinaryKind::OtherObject => empty_report(),
        BinaryKind::Unparsable => not_elf_binary_report(opts),
    }
}

/// What is shown of a file found inside a container image, from its copied-out
/// contents (`None` where copying failed): the size and hash where asked for,
/// and the binary report; only when one of those details was asked for.
pub fn inspect_container_file(opts: &Options, contents: Option<Vec<u8>>) -> (r: FileReport)
    ensures
        !(opts.hash || opts.show_size || opts.arch || opts.security || opts.libs || opts.verbose)
            ==> r.size is None && r.hash is None && r.binary@ == (BinaryReportView {
            arch: None,
            security: None,
            libs: None,
        }),
        (opts.hash || opts.show_size || opts.arch || opts.security || opts.libs || opts.verbose)
            ==> match contents {
            None => r.size is None && r.hash is None && r.binary@ == (BinaryReportView {
                arch: if opts.arch || opts.security || opts.libs || opts.hash || opts.show_size {
                    Some("Extraction failed"@)
                } else {
                    None
                },
                security: None,
                libs: None,
            }),
            Some(b) => {
                &&& r.size == (if opts.show_size || opts.verbose {
                    Some(b@.len() as u64)
                } else {
                    None
                })
                &&& (opts.hash ==> (r.hash matches Some(h) && h@ == hex_lower(sha256(b@))))
                &&& (!opts.hash ==> r.hash is None)
                &&& r.binary@ == container_report(*opts, goblin_object(b@))
            },
        },
{
    if !opts.inspects_container_files() {
        return FileReport { size: None, hash: None, binary: empty_report() };
    }
    match contents {
        None => {
            let arch = if opts.arch || opts.security || opts.libs || opts.hash || opts.show_size {
                Some(owned("Extraction failed"))
            } else {
                None
            };
            FileReport { size: None, hash: None, binary: BinaryReport { arch, security: None, libs: None } }
        },
        Some(b) => {
            let size = if opts.show_size || opts.verbose {
                Some(b.len() as u64)
            } else {
                None
            };
            let hash = if opts.hash {
                Some(sha256_hex(b.as_slice()))
            } else {
                None
            };
            let k = parse_object(b.as_slice());
            let binary = container_binary_report(opts, &k);
            FileReport { size, hash, binary }
        },
    }
}

} // verus!
