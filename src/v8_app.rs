//! The applications of an installed build, its processor architecture and
//! how that architecture is detected on each kind of host.
use crate::text::{contains_seq, join_path, joined, joined_with, join_path_with, str_contains, str_eq};
use vstd::prelude::*;

verus! {

/// The applications that an installed build ships.
pub enum V8AppType {
    /// Thick client.
    ThickClient,
    /// Thin client.
    ThinClient,
    /// Remote administration client.
    RAC,
    /// Remote administration server.
    RAS,
    /// Debug server.
    DBGS,
    /// Application server agent.
    AppServer,
    /// Repository server.
    RepositoryServer,
    /// Standalone server.
    IBSRV,
    /// Administration utility.
    IBCMD,
}

/// The executable name stem of each application.
pub open spec fn app_stem(t: V8AppType) -> Seq<char> {
    match t {
        V8AppType::ThickClient => "1cv8"@,
        V8AppType::ThinClient => "1cv8c"@,
        V8AppType::RAC => "rac"@,
        V8AppType::RAS => "ras"@,
        V8AppType::DBGS => "dbgs"@,
        V8AppType::AppServer => "ragent"@,
        V8AppType::RepositoryServer => "crserver"@,
        V8AppType::IBSRV => "ibsrv"@,
        V8AppType::IBCMD => "ibcmd"@,
    }
}

impl V8AppType {
    /// Where this application lies relative to a build's directory on host `os`.
    pub fn relative_path(&self, os: HostOs) -> (r: String)
        ensures
            r@ == app_relative(os, *self),
    {
        match os {
            HostOs::Windows => {
                let mut r = String::from_str("bin\\");
                r.append(self.value());
                r.append(".exe");
                r
            },
            _ => String::from_str(self.value()),
        }
    }

    /// The executable name stem of this application.
    pub fn value(&self) -> (r: &'static str)
        ensures
            r@ == app_stem(*self),
    {
        match *self {
            V8AppType::ThickClient => "1cv8",
            V8AppType::ThinClient => "1cv8c",
            V8AppType::RAC => "rac",
            V8AppType::RAS => "ras",
            V8AppType::DBGS => "dbgs",
            V8AppType::AppServer => "ragent",
            V8AppType::RepositoryServer => "crserver",
            V8AppType::IBSRV => "ibsrv",
            V8AppType::IBCMD => "ibcmd",
        }
    }
}

/// Processor architecture of a build, ordered `X86 < X64`.
#[derive(Clone, Copy, Debug, PartialEq, Eq, Structural, PartialOrd, Ord, Hash)]
pub enum V8Arch {
    /// 32-bit.
    X86,
    /// 64-bit.
    X64,
}

/// The position of an architecture in the order `X86 < X64`.
pub open spec fn arch_rank(a: V8Arch) -> int {
    match a {
        V8Arch::X86 => 0,
        V8Arch::X64 => 1,
    }
}

/// The kind of host the builds are installed on, which decides how an
/// architecture is detected.
#[derive(Clone, Copy, Debug, PartialEq, Eq, Structural)]
pub enum HostOs {
    /// Portable-executable binaries: the architecture is read from an executable.
    Windows,
    /// Builds are installed under folders named after the architecture.
    Linux,
    /// No signal is available.
    Other,
}

/// The separator with which the host joins paths.
pub open spec fn host_sep(os: HostOs) -> char {
    match os {
        HostOs::Windows => '\\',
        _ => '/',
    }
}

/// Where an application lies relative to a build's directory on host `os`.
pub open spec fn app_relative(os: HostOs, t: V8AppType) -> Seq<char> {
    match os {
        HostOs::Windows => "bin\\"@ + app_stem(t) + ".exe"@,
        _ => app_stem(t),
    }
}

/// The host kind named by an operating system name such as `"windows"`.
pub open spec fn host_os_of(name: Seq<char>) -> HostOs {
    if name == "windows"@ {
        HostOs::Windows
    } else if name == "linux"@ {
        HostOs::Linux
    } else {
        HostOs::Other
    }
}

impl HostOs {
    /// The separator with which this host joins paths.
    pub fn separator(&self) -> (r: char)
        ensures
            r == host_sep(*self),
    {
        match *self {
            HostOs::Windows => '\\',
            _ => '/',
        }
    }

    /// Joins `part` to the directory `base` as this host does.
    pub fn join(&self, base: &str, part: &str) -> (r: String)
        ensures
            r@ == joined_with(base@, part@, host_sep(*self)),
    {
        join_path_with(base, part, self.separator())
    }

    /// The host kind for an operating system name such as `"windows"`.
    pub fn from_os_name(name: &str) -> (r: HostOs)
        ensures
            r == host_os_of(name@),
    {
        if str_eq(name, "windows") {
            HostOs::Windows
        } else if str_eq(name, "linux") {
            HostOs::Linux
        } else {
            HostOs::Other
        }
    }
}

/// The little-endian 16-bit value at `at`.
pub open spec fn le_u16(b: Seq<u8>, at: int) -> int {
    b[at] as int + 256 * b[at + 1] as int
}

/// The little-endian 32-bit value at `at`.
pub open spec fn le_u32(b: Seq<u8>, at: int) -> int {
    b[at] as int + 256 * b[at + 1] as int + 65536 * b[at + 2] as int + 16777216 * b[at + 3] as int
}

/// Size of the DOS header that opens a portable-executable image.
pub const DOS_HEADER_LEN: usize = 64;

/// Offset, in the DOS header, of the file offset of the NT headers.
pub const LFANEW_AT: usize = 0x3C;

/// Size of the 32-bit NT headers: signature, file header and optional header
/// without its data directories.
pub const NT_HEADERS32_LEN: usize = 120;

/// `image` opens with a DOS header carrying the `MZ` signature.
pub open spec fn has_dos_header(image: Seq<u8>) -> bool {
    image.len() >= DOS_HEADER_LEN && image[0] == 0x4D && image[1] == 0x5A
}

/// The architecture recorded in the headers of a portable-executable image:
/// after an `MZ` DOS header, the NT headers lie at the offset held at `0x3C`
/// and must fit in the image; the magic of their optional header, 24 bytes in,
/// is `0x10b` for a 32-bit and `0x20b` for a 64-bit image.
pub open spec fn pe_arch_of(image: Seq<u8>) -> Option<V8Arch> {
    if has_dos_header(image) && le_u32(image, LFANEW_AT as int) + NT_HEADERS32_LEN <= image.len() {
        let magic = le_u16(image, le_u32(image, LFANEW_AT as int) + 24);
        if magic == 0x10b {
            Some(V8Arch::X86)
        } else if magic == 0x20b {
            Some(V8Arch::X64)
        } else {
            None
        }
    } else {
        None
    }
}

/// The end of the NT headers, where an image names them, can be computed
/// without overflow on this target.
pub open spec fn pe_headers_addressable(image: Seq<u8>) -> bool {
    has_dos_header(image) ==> le_u32(image, LFANEW_AT as int) + NT_HEADERS32_LEN <= usize::MAX
}

/// Relies on exe's `PE::get_arch` on a `VecPE` built by `from_disk_data`: it
/// reads the DOS header (64 bytes, `MZ`), then the 32-bit NT headers (120
/// bytes) at the DOS header's `e_lfanew`, and maps their optional header's
/// magic; a read past the end is an error. The fields are read in the target's
/// byte order, which is little-endian on every target that runs the builds.
/// pkbuffer's bounds check adds `e_lfanew` and the header size unchecked, so
/// the sum must fit in `usize`.
#[verifier::external_body]
fn pe_arch(image: &[u8]) -> (r: Option<V8Arch>)
    requires
        pe_headers_addressable(image@),
    ensures
        r == pe_arch_of(image@),
{
    match exe::PE::get_arch(&exe::VecPE::from_disk_data(image)) {
        Ok(exe::Arch::X86) => Some(V8Arch::X86),
        Ok(exe::Arch::X64) => Some(V8Arch::X64),
        Err(_) => None,
    }
}

/// Whether the end of the NT headers that `image` names fits in `usize`.
pub fn headers_addressable(image: &[u8]) -> (r: bool)
    ensures
        r == pe_headers_addressable(image@),
{
    if image.len() < DOS_HEADER_LEN || image[0] != 0x4D || image[1] != 0x5A {
        return true;
    }
    let e: u64 = image[LFANEW_AT] as u64 + 256 * image[LFANEW_AT + 1] as u64 + 65536
        * image[LFANEW_AT + 2] as u64 + 16777216 * image[LFANEW_AT + 3] as u64;
    e + NT_HEADERS32_LEN as u64 <= usize::MAX as u64
}

/// The file, relative to a build's directory, whose headers tell its
/// architecture on the given host.
pub open spec fn probe_suffix(os: HostOs) -> Seq<char> {
    match os {
        HostOs::Windows => "bin\\1cv8s.exe"@,
        _ => "1cv8s"@,
    }
}

/// The architecture read from the probe executable's content; `None` stands
/// for a file that is missing or unreadable.
pub open spec fn arch_from_image(image: Option<Seq<u8>>) -> V8Arch {
    match image {
        Some(b) => match pe_arch_of(b) {
            Some(a) => a,
            None => V8Arch::X86,
        },
        None => V8Arch::X86,
    }
}

/// The architecture told by a build's path on a host that installs builds
/// under architecture folders.
pub open spec fn arch_from_path_text(path: Seq<char>) -> V8Arch {
    if contains_seq(path, "i386"@) {
        V8Arch::X86
    } else {
        V8Arch::X64
    }
}

/// The architecture detected for the build at `path` on host `os`, where
/// `image` is the content of the probe executable, if it could be read.
pub open spec fn arch_detected(os: HostOs, path: Seq<char>, image: Option<Seq<u8>>) -> V8Arch {
    match os {
        HostOs::Windows => arch_from_image(image),
        HostOs::Linux => arch_from_path_text(path),
        HostOs::Other => V8Arch::X64,
    }
}

/// The bytes of an executable's content, where there is one.
pub open spec fn image_view(image: Option<&[u8]>) -> Option<Seq<u8>> {
    match image {
        Some(b) => Some(b@),
        None => None,
    }
}

/// The relative path of the probe executable on host `os`.
pub fn get_v8s_suffix(os: HostOs) -> (r: &'static str)
    ensures
        r@ == probe_suffix(os),
{
    match os {
        HostOs::Windows => "bin\\1cv8s.exe",
        _ => "1cv8s",
    }
}

impl V8Arch {
    /// The short name of the architecture.
    pub fn value(&self) -> (r: &'static str)
        ensures
            r@ == (match *self {
                V8Arch::X86 => "x86"@,
                V8Arch::X64 => "x64"@,
            }),
    {
        match *self {
            V8Arch::X86 => "x86",
            V8Arch::X64 => "x64",
        }
    }

    /// Where the probe executable of the build at `build_path` lies on host `os`.
    pub fn probe_path(os: HostOs, build_path: &str) -> (r: String)
        ensures
            r@ == joined(build_path@, probe_suffix(os)),
    {
        join_path(build_path, get_v8s_suffix(os))
    }

    /// Detects the architecture of the build at `path` on host `os`; `image` is
    /// the content of the file at `probe_path(os, path)`, or `None` where it is
    /// missing or unreadable. Detection never fails: where the evidence says
    /// nothing, a default is returned.
    pub fn from_path(os: HostOs, path: &str, image: Option<&[u8]>) -> (r: V8Arch)
        ensures
            r == arch_detected(os, path@, image_view(image)),
            os == HostOs::Windows && image.is_none() ==> r == V8Arch::X86,
    {
        match os {
            HostOs::Windows => V8Arch::v8_arch_from_exe(image),
            HostOs::Linux => V8Arch::v8_arch_from_linux_path(path),
            HostOs::Other => V8Arch::X64,
        }
    }

    /// The architecture told by a build's path: `X86` where it holds `i386`,
    /// else `X64`.
    pub fn v8_arch_from_linux_path(path: &str) -> (r: V8Arch)
        ensures
            r == arch_from_path_text(path@),
    {
        if str_contains(path, "i386") {
            V8Arch::X86
        } else {
            V8Arch::X64
        }
    }

    /// The architecture read from the probe executable's content: the one its
    /// headers name, else `X86`, also where there is no content.
    pub fn v8_arch_from_exe(image: Option<&[u8]>) -> (r: V8Arch)
        ensures
            r == arch_from_image(image_view(image)),
    {
        match image {
            Some(b) => {
                if headers_addressable(b) {
                    V8Arch::from_pe_arch(pe_arch(b))
                } else {
                    // The headers would end past any address, so past the image.
                    let n = b.len();
                    assert(n == b@.len());
                    V8Arch::X86
                }
            },
            None => V8Arch::X86,
        }
    }

    /// The architecture for what the executable's headers were found to name:
    /// that one, or `X86` where they name none.
    pub fn from_pe_arch(found: Option<V8Arch>) -> (r: V8Arch)
        ensures
            r == (match found {
                Some(a) => a,
                None => V8Arch::X86,
            }),
    {
        match found {
            Some(a) => a,
            None => V8Arch::X86,
        }
    }
}

} // verus!
