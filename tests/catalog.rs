use v8find4rs::v8_app::{HostOs, V8AppType, V8Arch};
use v8find4rs::v8_finder::v8_dir::{
    default_v8_paths, get_starter_path_windows, read_paths_from_starter, v8_windows_paths, V8Dir,
};
use v8find4rs::v8_finder::v8_platform::{parse_version, ListedEntry, V8Platform};

fn entry(path: &str, is_dir: bool, arch: V8Arch) -> ListedEntry {
    ListedEntry { path: path.to_string(), is_dir, arch }
}

#[test]
fn parse_version_reads_groups() {
    assert_eq!(parse_version("8.3.13.1234"), Some((3, 13, 1234)));
    assert_eq!(parse_version("8.2.19.130"), Some((2, 19, 130)));
    assert_eq!(parse_version("8.3.013.0001"), Some((3, 13, 1)));
}

#[test]
fn parse_version_rejects_other_names() {
    assert_eq!(parse_version("8.3.13"), None);
    assert_eq!(parse_version("8.3.13.1234.5"), None);
    assert_eq!(parse_version("8.3.13.12a4"), None);
    assert_eq!(parse_version("18.3.13.1234"), None);
    assert_eq!(parse_version("8.10.1.1"), None);
    assert_eq!(parse_version("8.3..1"), None);
    assert_eq!(parse_version("8.3.99999999999.1"), None);
    assert_eq!(parse_version("common"), None);
    assert_eq!(parse_version(""), None);
}

#[test]
fn from_version_path_uses_base_name() {
    let p = V8Platform::from_version_path(r"C:\Program Files\1cv8\8.3.13.1234".to_string(), V8Arch::X64)
        .unwrap();
    assert_eq!((p.generation, p.version, p.build, p.arch), (3, 13, 1234, V8Arch::X64));
    assert_eq!(p.path, r"C:\Program Files\1cv8\8.3.13.1234");
    let q = V8Platform::from_version_path("/opt/1cv8/i386/8.3.20.100".to_string(), V8Arch::X86).unwrap();
    assert_eq!((q.generation, q.version, q.build), (3, 20, 100));
    assert!(V8Platform::from_version_path(r"C:\Program Files\1cv8\common".to_string(), V8Arch::X86).is_none());
}

#[test]
fn version_dirs_by_base_name() {
    assert!(V8Platform::is_version_dir(r"C:\1cv8\8.3.13.1234", true));
    assert!(V8Platform::is_version_dir("/opt/1cv8/x86_64/8.3.20.100", true));
    assert!(!V8Platform::is_version_dir("/opt/1cv8/x86_64/8.3.20.100", false));
    assert!(!V8Platform::is_version_dir(r"C:\1cv8\conf", true));
    assert!(!V8Platform::is_version_dir(r"C:\8.3.13.1234\bin", true));
}

#[test]
fn catalog_concatenates_roots_without_dedup() {
    let roots = vec![
        Some(vec![entry("r1/8.3.13.1234", true, V8Arch::X86), entry("r1/conf", true, V8Arch::X86)]),
        None,
        Some(vec![entry("r2/8.3.13.1234", true, V8Arch::X86)]),
    ];
    let all = V8Platform::v8_platforms(&roots);
    assert_eq!(all.len(), 2);
    assert_eq!(all[0].path, "r1/8.3.13.1234");
    assert_eq!(all[1].path, "r2/8.3.13.1234");
    assert!(all[0] == all[1]);
}

#[test]
fn from_v8_dir_unlisted_root() {
    assert!(V8Platform::from_v8_dir(None).is_none());
    let entries = vec![entry("x/8.3.1.2", true, V8Arch::X64)];
    assert_eq!(V8Platform::from_v8_dir(Some(&entries)).unwrap().len(), 1);
}

#[test]
fn from_v8_dir_skips_regular_files() {
    let entries = vec![
        entry("x/8.3.13.1234", false, V8Arch::X64),
        entry("x/8.3.13.1400", true, V8Arch::X64),
    ];
    let found = V8Platform::from_v8_dir(Some(&entries)).unwrap();
    assert_eq!(found.len(), 1);
    assert_eq!(found[0].path, "x/8.3.13.1400");
    assert!(V8Platform::from_v8_dir(Some(&vec![entry("x/8.3.1.2", false, V8Arch::X86)])).unwrap().is_empty());
}

#[test]
fn arch_probe_missing_executable_is_x86() {
    assert_eq!(V8Arch::from_path(HostOs::Windows, r"C:\1cv8\8.3.1.2", None), V8Arch::X86);
    assert_eq!(V8Arch::v8_arch_from_exe(None), V8Arch::X86);
}

#[test]
fn arch_probe_unreadable_header_is_x86() {
    let junk = vec![1u8, 2, 3];
    assert_eq!(V8Arch::from_path(HostOs::Windows, "x", Some(&junk)), V8Arch::X86);
    assert_eq!(V8Arch::v8_arch_from_exe(Some(&[])), V8Arch::X86);
}

fn pe_image(magic: u16) -> Vec<u8> {
    let mut image = vec![0u8; 512];
    image[0] = b'M';
    image[1] = b'Z';
    image[0x3c] = 0x40;
    image[0x40..0x44].copy_from_slice(b"PE\0\0");
    let at = 0x40 + 4 + 20;
    image[at..at + 2].copy_from_slice(&magic.to_le_bytes());
    image
}

#[test]
fn arch_probe_reads_header_magic() {
    assert_eq!(V8Arch::from_path(HostOs::Windows, "x", Some(&pe_image(0x20b))), V8Arch::X64);
    assert_eq!(V8Arch::from_path(HostOs::Windows, "x", Some(&pe_image(0x10b))), V8Arch::X86);
    assert_eq!(V8Arch::from_path(HostOs::Windows, "x", Some(&pe_image(0x999))), V8Arch::X86);
}

#[test]
fn arch_probe_header_must_fit() {
    let mut fits = pe_image(0x20b);
    fits.truncate(0x40 + 120);
    assert_eq!(V8Arch::v8_arch_from_exe(Some(&fits)), V8Arch::X64);
    let mut short = pe_image(0x20b);
    short.truncate(0x40 + 119);
    assert_eq!(V8Arch::v8_arch_from_exe(Some(&short)), V8Arch::X86);
}

#[test]
fn arch_probe_far_header_offset() {
    let mut image = pe_image(0x20b);
    image[0x3c..0x40].copy_from_slice(&0xffff_fff0u32.to_le_bytes());
    assert_eq!(V8Arch::v8_arch_from_exe(Some(&image)), V8Arch::X86);
    image[0] = b'X';
    assert_eq!(V8Arch::v8_arch_from_exe(Some(&image)), V8Arch::X86);
}

#[test]
fn arch_probe_by_path_and_default() {
    assert_eq!(V8Arch::from_path(HostOs::Linux, "/opt/1cv8/i386/8.3.1.2", None), V8Arch::X86);
    assert_eq!(V8Arch::from_path(HostOs::Linux, "/opt/1cv8/x86_64/8.3.1.2", None), V8Arch::X64);
    assert_eq!(V8Arch::v8_arch_from_linux_path("i38"), V8Arch::X64);
    assert_eq!(V8Arch::from_path(HostOs::Other, "/Applications/1cv8", None), V8Arch::X64);
}

#[test]
fn host_names() {
    assert_eq!(HostOs::from_os_name("windows"), HostOs::Windows);
    assert_eq!(HostOs::from_os_name("linux"), HostOs::Linux);
    assert_eq!(HostOs::from_os_name("macos"), HostOs::Other);
    assert_eq!(HostOs::from_os_name("window"), HostOs::Other);
}

#[test]
fn probe_path_per_host() {
    assert_eq!(V8Arch::probe_path(HostOs::Windows, r"C:\1cv8\8.3.1.2"), r"C:\1cv8\8.3.1.2\bin\1cv8s.exe");
    assert_eq!(V8Arch::probe_path(HostOs::Windows, r"C:\1cv8\8.3.1.2\"), r"C:\1cv8\8.3.1.2\bin\1cv8s.exe");
}

#[test]
fn arch_and_app_names() {
    assert_eq!(V8Arch::X86.value(), "x86");
    assert_eq!(V8Arch::X64.value(), "x64");
    assert!(V8Arch::X86 < V8Arch::X64);
    assert_eq!(V8AppType::ThickClient.value(), "1cv8");
    assert_eq!(V8AppType::ThinClient.value(), "1cv8c");
    assert_eq!(V8AppType::AppServer.value(), "ragent");
    assert_eq!(V8AppType::RepositoryServer.value(), "crserver");
    assert_eq!(V8AppType::IBCMD.value(), "ibcmd");
}

#[test]
fn app_path_per_host() {
    let p = V8Platform::from_version_path(r"C:\1cv8\8.3.13.1234".to_string(), V8Arch::X64).unwrap();
    assert_eq!(p.app_path(V8AppType::ThickClient, HostOs::Windows), r"C:\1cv8\8.3.13.1234\bin\1cv8.exe");
    let q = V8Platform::from_version_path("/opt/1cv8/x86_64/8.3.13.1234".to_string(), V8Arch::X64).unwrap();
    assert_eq!(q.app_path(V8AppType::RAC, HostOs::Linux), "/opt/1cv8/x86_64/8.3.13.1234/rac");
}

#[test]
fn starter_lines_give_locations() {
    let cfg = "DefaultVersionIndex=0\r\nInstalledLocation=C:\\Program Files\\1cv8\r\nInstalledLocation=D:\\1C\nInstalledLocationX\n";
    let dirs = read_paths_from_starter(cfg);
    let paths: Vec<&str> = dirs.iter().map(|d| d.path.as_str()).collect();
    assert_eq!(paths, vec!["C:\\Program Files\\1cv8", "D:\\1C", "nstalledLocationX"]);
    assert!(read_paths_from_starter("").is_empty());
}

#[test]
fn starter_path_under_config_dir() {
    assert_eq!(get_starter_path_windows(r"C:\ProgramData"), r"C:\ProgramData\1C\1CEStart\1CEStart.cfg");
}

#[test]
fn default_paths_from_folders() {
    let dirs = default_v8_paths(Some(r"C:\PF86"), None, Some(r"C:\U\Local"));
    let paths: Vec<&str> = dirs.iter().map(|d| d.path.as_str()).collect();
    assert_eq!(
        paths,
        vec![
            r"C:\PF86\1cv8",
            r"C:\PF86\1cv82",
            r"C:\U\Local\Programs\1cv8",
            r"C:\U\Local\Programs\1cv8_x86",
            r"C:\U\Local\Programs\1cv8_x64",
        ]
    );
    assert!(default_v8_paths(None, None, None).is_empty());
}

#[test]
fn windows_roots_deduplicated_in_order() {
    let d = |s: &str| V8Dir::from_path(s.to_string());
    let all_users = vec![d("A"), d("B")];
    let local = vec![d("B"), d("C")];
    let defaults = vec![d("A"), d("D"), d("C")];
    let roots = v8_windows_paths(&all_users, &local, &defaults);
    let paths: Vec<&str> = roots.iter().map(|d| d.path.as_str()).collect();
    assert_eq!(paths, vec!["A", "B", "C", "D"]);
    assert!(d("A") == d("A"));
    assert!(d("A") != d("B"));
}
