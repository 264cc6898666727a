use xmas_package_manager::vsys::error::{CVsysError, IoKind, VsysError, VsysResult};
use xmas_package_manager::vsys::fs::{
    check_access, DirEntry, FileStat, FileType, FsEntry, FsHandle, FsHandleOps, FsVTable, HostFs,
    OpenOptions, SeekFrom,
};
use xmas_package_manager::vsys::module_loader::{
    builtins_only_load, builtins_only_resolve, default_exists, default_find_package_json,
    default_is_builtin, default_list_builtins, default_load, default_read_package_json,
    default_resolve, detect_format, file_candidates, index_candidates, lookup,
    manifest_candidates, not_found, package_candidates, try_resolve_file,
    parse_manifest, try_resolve_node_modules, JsonField, Lookup, ModuleFormat, ModuleLoaderVTable, PackageJson,
    ResolvedModule,
};
use xmas_package_manager::vsys::path::ancestors;
use xmas_package_manager::vsys::permissions::Permissions;
use xmas_package_manager::vsys::system::Vsys;

/// A filesystem that holds what it is given and counts what it is asked.
struct MemFs {
    files: std::cell::RefCell<Vec<(String, Shared)>>,
    dirs: Vec<String>,
    calls: std::cell::Cell<usize>,
}

/// The bytes of a file, shared between the host and the handles on it.
type Shared = std::sync::Arc<std::sync::Mutex<Vec<u8>>>;

fn shared(content: &[u8]) -> Shared {
    std::sync::Arc::new(std::sync::Mutex::new(content.to_vec()))
}

impl MemFs {
    fn new() -> Self {
        MemFs {
            files: std::cell::RefCell::new(Vec::new()),
            dirs: Vec::new(),
            calls: std::cell::Cell::new(0),
        }
    }

    fn with_file(self, path: &str, content: &[u8]) -> Self {
        self.files.borrow_mut().push((path.to_string(), shared(content)));
        self
    }

    fn with_dir(mut self, path: &str) -> Self {
        self.dirs.push(path.to_string());
        self
    }

    fn asked(&self) {
        self.calls.set(self.calls.get() + 1);
    }

    fn file(&self, path: &str) -> Option<Shared> {
        self.files.borrow().iter().find(|f| f.0 == path).map(|f| f.1.clone())
    }

    fn find(&self, path: &str) -> Option<Vec<u8>> {
        self.file(path).map(|content| content.lock().unwrap().clone())
    }

    fn stat_of(&self, path: &str) -> VsysResult<FileStat> {
        let (file_type, size) = match self.find(path) {
            Some(content) => (FileType::File, content.len() as u64),
            None if self.dirs.iter().any(|d| d == path) => (FileType::Directory, 0),
            None => return Err(VsysError::NotFound(path.to_string())),
        };
        Ok(FileStat {
            file_type,
            size,
            readonly: false,
            modified: None,
            accessed: None,
            created: None,
            mode: 0o644,
            uid: 0,
            gid: 0,
        })
    }
}

fn unsupported<T>() -> VsysResult<T> {
    Err(VsysError::NotSupported("in memory".to_string()))
}

impl HostFs for MemFs {
    type Handle = MemHandle;

    fn read(&self, path: &str) -> VsysResult<Vec<u8>> {
        self.asked();
        self.find(path).ok_or(VsysError::NotFound(path.to_string()))
    }

    fn read_to_string(&self, path: &str) -> VsysResult<String> {
        self.asked();
        self.find(path)
            .map(|c| String::from_utf8_lossy(&c).into_owned())
            .ok_or(VsysError::NotFound(path.to_string()))
    }

    fn stat(&self, path: &str) -> VsysResult<FileStat> {
        self.asked();
        self.stat_of(path)
    }

    fn lstat(&self, path: &str) -> VsysResult<FileStat> {
        self.asked();
        self.stat_of(path)
    }

    fn read_dir(&self, _path: &str) -> VsysResult<Vec<DirEntry>> {
        self.asked();
        Ok(Vec::new())
    }

    fn read_link(&self, _path: &str) -> VsysResult<String> {
        self.asked();
        unsupported()
    }

    fn path_exists(&self, path: &str) -> bool {
        self.asked();
        self.find(path).is_some() || self.dirs.iter().any(|d| d == path)
    }

    fn is_file(&self, path: &str) -> bool {
        self.asked();
        self.find(path).is_some()
    }

    fn is_dir(&self, path: &str) -> bool {
        self.asked();
        self.dirs.iter().any(|d| d == path)
    }

    fn write(&self, _path: &str, _data: &[u8]) -> VsysResult<()> {
        self.asked();
        Ok(())
    }

    fn append(&self, _path: &str, _data: &[u8]) -> VsysResult<()> {
        self.asked();
        Ok(())
    }

    fn create_dir(&self, _path: &str) -> VsysResult<()> {
        self.asked();
        Ok(())
    }

    fn create_dir_all(&self, _path: &str) -> VsysResult<()> {
        self.asked();
        Ok(())
    }

    fn remove_file(&self, _path: &str) -> VsysResult<()> {
        self.asked();
        Ok(())
    }

    fn remove_dir(&self, _path: &str) -> VsysResult<()> {
        self.asked();
        Ok(())
    }

    fn remove_dir_all(&self, _path: &str) -> VsysResult<()> {
        self.asked();
        Ok(())
    }

    fn rename(&self, _from: &str, _to: &str) -> VsysResult<()> {
        self.asked();
        Ok(())
    }

    fn copy(&self, from: &str, _to: &str) -> VsysResult<u64> {
        self.asked();
        self.find(from).map(|c| c.len() as u64).ok_or(VsysError::NotFound(from.to_string()))
    }

    fn symlink(&self, _target: &str, _link: &str) -> VsysResult<()> {
        self.asked();
        Ok(())
    }

    fn truncate(&self, _path: &str, _size: u64) -> VsysResult<()> {
        self.asked();
        Ok(())
    }

    fn access(&self, path: &str, mode: u32) -> VsysResult<()> {
        self.asked();
        let stat = self.stat_of(path)?;
        check_access(mode, stat.mode, 0, 0, stat.uid, stat.gid)
    }

    fn mkdtemp(&self, prefix: &str) -> VsysResult<String> {
        self.asked();
        Ok(format!("/tmp/{}0", prefix))
    }

    fn set_permissions(&self, _path: &str, _readonly: bool) -> VsysResult<()> {
        self.asked();
        Ok(())
    }

    fn set_mode(&self, _path: &str, _mode: u32) -> VsysResult<()> {
        self.asked();
        Ok(())
    }

    fn chown(&self, _path: &str, _uid: u32, _gid: u32) -> VsysResult<()> {
        self.asked();
        Ok(())
    }

    fn canonicalize(&self, path: &str) -> VsysResult<String> {
        self.asked();
        Ok(path.to_string())
    }

    fn open(&self, path: &str, options: &OpenOptions) -> VsysResult<FsHandle<MemHandle>> {
        self.asked();
        if self.file(path).is_none() && options.create {
            self.files.borrow_mut().push((path.to_string(), shared(b"")));
        }
        match self.file(path) {
            Some(content) => Ok(FsHandle::new(MemHandle { content, at: 0 })),
            None => Err(VsysError::NotFound(path.to_string())),
        }
    }
}

struct MemHandle {
    content: Shared,
    at: usize,
}

impl FsHandleOps for MemHandle {
    fn read(&mut self, buf: &mut [u8]) -> VsysResult<usize> {
        let content = self.content.lock().unwrap();
        let n = buf.len().min(content.len() - self.at);
        buf[..n].copy_from_slice(&content[self.at..self.at + n]);
        self.at += n;
        Ok(n)
    }

    fn write(&mut self, buf: &[u8]) -> VsysResult<usize> {
        self.content.lock().unwrap().extend_from_slice(buf);
        Ok(buf.len())
    }

    fn seek(&mut self, pos: SeekFrom) -> VsysResult<u64> {
        match pos {
            SeekFrom::Start(n) => self.at = (n as usize).min(self.content.lock().unwrap().len()),
            SeekFrom::End(_) => self.at = self.content.lock().unwrap().len(),
            SeekFrom::Current(_) => {}
        }
        Ok(self.at as u64)
    }

    fn sync_all(&self) -> VsysResult<()> {
        Ok(())
    }

    fn sync_data(&self) -> VsysResult<()> {
        Ok(())
    }

    fn stat(&self) -> VsysResult<FileStat> {
        Ok(FileStat {
            file_type: FileType::File,
            size: self.content.lock().unwrap().len() as u64,
            readonly: false,
            modified: None,
            accessed: None,
            created: None,
            mode: 0,
            uid: 0,
            gid: 0,
        })
    }

    fn set_len(&self, _size: u64) -> VsysResult<()> {
        Err(VsysError::NotSupported("set_len".to_string()))
    }

    fn set_permissions(&self, _readonly: bool) -> VsysResult<()> {
        Ok(())
    }

    fn set_mode(&self, mode: u32) -> VsysResult<()> {
        Err(VsysError::Custom { code: mode as i32, message: "mode".to_string() })
    }
}

#[test]
fn test_deny_all_fs() {
    let host = MemFs::new().with_file("/tmp/test", b"secret").with_dir("/tmp");
    let vtable = FsVTable::deny_all();

    let result = vtable.call_read(&host, "/tmp/test");
    assert!(result.is_err());

    assert!(!vtable.call_exists(&host, "/tmp"));
    assert_eq!(host.calls.get(), 0);
}

#[test]
fn test_read_only_fs() {
    let file_path = "test.txt";
    let host = MemFs::new().with_file(file_path, b"test");

    let vtable = FsVTable::read_only();

    // Read should work
    let data = vtable.call_read(&host, file_path).unwrap();
    assert_eq!(data, b"test");

    // Write should fail
    let result = vtable.call_write(&host, file_path, b"new data");
    assert!(result.is_err());
    assert_eq!(result, Err(VsysError::PermissionDenied("fs is read-only".to_string())));
}

#[test]
fn test_open_and_handle() {
    let host = MemFs::new();
    let vtable = FsVTable::default();

    // Open for writing
    let options = OpenOptions::new().write(true).create(true);
    let mut handle = vtable.call_open(&host, "handle_test.txt", &options).unwrap();

    // Write through handle
    handle.write(b"hello from handle").unwrap();
    handle.sync_all().unwrap();

    // Open for reading
    let options = OpenOptions::new().read(true);
    let mut handle = vtable.call_open(&host, "handle_test.txt", &options).unwrap();

    let mut buf = vec![0u8; 100];
    let n = handle.read(&mut buf).unwrap();
    assert_eq!(&buf[..n], b"hello from handle");

    let stat = handle.stat().unwrap();
    assert_eq!(stat.size, 17);
}

#[test]
fn deny_all_names_each_operation() {
    let host = MemFs::new();
    let t = FsVTable::deny_all();
    let denied = |text: &str| VsysError::PermissionDenied(text.to_string());
    assert_eq!(t.call_read(&host, "a"), Err(denied("fs read denied")));
    assert_eq!(t.call_read_to_string(&host, "a"), Err(denied("fs read denied")));
    assert_eq!(t.call_stat(&host, "a").err(), Some(denied("fs stat denied")));
    assert_eq!(t.call_lstat(&host, "a").err(), Some(denied("fs lstat denied")));
    assert_eq!(t.call_read_dir(&host, "a").err(), Some(denied("fs readdir denied")));
    assert_eq!(t.call_read_link(&host, "a"), Err(denied("fs readlink denied")));
    assert!(!t.call_is_file(&host, "a"));
    assert!(!t.call_is_dir(&host, "a"));
    assert_eq!(t.call_write(&host, "a", b"x"), Err(denied("fs write denied")));
    assert_eq!(t.call_append(&host, "a", b"x"), Err(denied("fs append denied")));
    assert_eq!(t.call_create_dir(&host, "a"), Err(denied("fs mkdir denied")));
    assert_eq!(t.call_create_dir_all(&host, "a"), Err(denied("fs mkdir denied")));
    assert_eq!(t.call_remove_file(&host, "a"), Err(denied("fs remove denied")));
    assert_eq!(t.call_remove_dir(&host, "a"), Err(denied("fs rmdir denied")));
    assert_eq!(t.call_remove_dir_all(&host, "a"), Err(denied("fs rmdir denied")));
    assert_eq!(t.call_rename(&host, "a", "b"), Err(denied("fs rename denied")));
    assert_eq!(t.call_copy(&host, "a", "b"), Err(denied("fs copy denied")));
    assert_eq!(t.call_symlink(&host, "a", "b"), Err(denied("fs symlink denied")));
    assert_eq!(t.call_truncate(&host, "a", 1), Err(denied("fs truncate denied")));
    assert_eq!(t.call_access(&host, "a", 0), Err(denied("fs access denied")));
    assert_eq!(t.call_mkdtemp(&host, "p"), Err(denied("fs mkdtemp denied")));
    assert_eq!(t.call_set_permissions(&host, "a", true), Err(denied("fs chmod denied")));
    assert_eq!(t.call_set_mode(&host, "a", 0o644), Err(denied("fs chmod denied")));
    assert_eq!(t.call_chown(&host, "a", 1, 1), Err(denied("fs chown denied")));
    assert_eq!(t.call_canonicalize(&host, "a"), Err(denied("fs canonicalize denied")));
    assert_eq!(t.call_open(&host, "a", &OpenOptions::new()).err(), Some(denied("fs open denied")));
    assert_eq!(host.calls.get(), 0);
}

#[test]
fn read_only_refuses_every_change() {
    let host = MemFs::new().with_file("a", b"abc").with_dir("d");
    let t = FsVTable::read_only();
    let denied = VsysError::PermissionDenied("fs is read-only".to_string());
    assert_eq!(t.call_append(&host, "a", b"x"), Err(denied.clone()));
    assert_eq!(t.call_create_dir(&host, "a"), Err(denied.clone()));
    assert_eq!(t.call_create_dir_all(&host, "a"), Err(denied.clone()));
    assert_eq!(t.call_remove_file(&host, "a"), Err(denied.clone()));
    assert_eq!(t.call_remove_dir(&host, "a"), Err(denied.clone()));
    assert_eq!(t.call_remove_dir_all(&host, "a"), Err(denied.clone()));
    assert_eq!(t.call_rename(&host, "a", "b"), Err(denied.clone()));
    assert_eq!(t.call_copy(&host, "a", "b"), Err(denied.clone()));
    assert_eq!(t.call_symlink(&host, "a", "b"), Err(denied.clone()));
    assert_eq!(t.call_truncate(&host, "a", 1), Err(denied.clone()));
    assert_eq!(t.call_mkdtemp(&host, "p"), Err(denied.clone()));
    assert_eq!(t.call_set_permissions(&host, "a", true), Err(denied.clone()));
    assert_eq!(t.call_set_mode(&host, "a", 0o644), Err(denied.clone()));
    assert_eq!(t.call_chown(&host, "a", 1, 1), Err(denied));
    assert_eq!(host.calls.get(), 0);
    assert!(t.call_exists(&host, "a"));
    assert!(t.call_is_file(&host, "a"));
    assert!(t.call_is_dir(&host, "d"));
    assert_eq!(t.call_read_to_string(&host, "a"), Ok("abc".to_string()));
    assert_eq!(t.call_stat(&host, "a").unwrap().size, 3);
    assert_eq!(t.call_canonicalize(&host, "a"), Ok("a".to_string()));
    assert!(t.call_access(&host, "a", 4).is_ok());
}

#[test]
fn default_table_hands_everything_on() {
    let host = MemFs::new().with_file("a", b"abc");
    let t = FsVTable::default();
    assert_eq!(t.call_write(&host, "a", b"x"), Ok(()));
    assert_eq!(t.call_copy(&host, "a", "b"), Ok(3));
    assert_eq!(t.call_mkdtemp(&host, "xmas_test_"), Ok("/tmp/xmas_test_0".to_string()));
    assert_eq!(host.calls.get(), 3);
    assert_eq!(t.read, FsEntry::Host);
    assert!(t.read.allows());
    assert_eq!(t.read.refusal(), None);
}

#[test]
fn entries_refuse_with_their_text() {
    let entry = FsEntry::Deny("no".to_string());
    assert!(!entry.allows());
    assert_eq!(entry.refusal(), Some(VsysError::PermissionDenied("no".to_string())));
}

#[test]
fn handles_hand_on_to_what_they_hold() {
    let mut handle = FsHandle::new(MemHandle { content: shared(b"ab"), at: 0 });
    assert_eq!(handle.write(b"cd"), Ok(2));
    assert_eq!(handle.seek(SeekFrom::Start(1)), Ok(1));
    let mut buf = [0u8; 2];
    assert_eq!(handle.read(&mut buf), Ok(2));
    assert_eq!(&buf, b"bc");
    assert_eq!(handle.seek(SeekFrom::End(0)), Ok(4));
    assert_eq!(handle.seek(SeekFrom::Current(0)), Ok(4));
    assert_eq!(handle.sync_all(), Ok(()));
    assert_eq!(handle.sync_data(), Ok(()));
    assert_eq!(handle.set_permissions(true), Ok(()));
    assert_eq!(handle.set_len(1), Err(VsysError::NotSupported("set_len".to_string())));
    assert_eq!(
        handle.set_mode(7),
        Err(VsysError::Custom { code: 7, message: "mode".to_string() })
    );
}

#[test]
fn open_options_are_built_field_by_field() {
    let fresh = OpenOptions::new();
    assert!(!fresh.read && !fresh.write && !fresh.append && !fresh.truncate);
    assert!(!fresh.create && !fresh.create_new);
    assert_eq!(fresh.mode, 0);
    let options = OpenOptions::new()
        .read(true)
        .write(true)
        .append(true)
        .truncate(true)
        .create(true)
        .create_new(true)
        .mode(0o600);
    assert!(options.read && options.write && options.append && options.truncate);
    assert!(options.create && options.create_new);
    assert_eq!(options.mode, 0o600);
    let back = options.write(false);
    assert!(back.read && !back.write);
    let default = OpenOptions::default();
    assert!(!default.read && default.mode == 0);
}

#[test]
fn file_stat_tells_the_kind() {
    let stat = |file_type| FileStat {
        file_type,
        size: 1,
        readonly: true,
        modified: Some(1),
        accessed: None,
        created: None,
        mode: 0,
        uid: 0,
        gid: 0,
    };
    assert!(stat(FileType::File).is_file());
    assert!(!stat(FileType::File).is_dir());
    assert!(stat(FileType::Directory).is_dir());
    assert!(stat(FileType::Symlink).is_symlink());
    assert!(!stat(FileType::Other).is_file());
    assert!(!stat(FileType::Other).is_symlink());
    assert_eq!(FileType::classify(true, true, true), FileType::File);
    assert_eq!(FileType::classify(false, true, true), FileType::Directory);
    assert_eq!(FileType::classify(false, false, true), FileType::Symlink);
    assert_eq!(FileType::classify(false, false, false), FileType::Other);
}

#[test]
fn access_goes_by_the_bits_of_the_callers_class() {
    let denied = |text: &str| Err(VsysError::PermissionDenied(text.to_string()));
    // existence only
    assert_eq!(check_access(0, 0, 1, 1, 2, 2), Ok(()));
    // owner of a 0o640 file
    assert_eq!(check_access(4, 0o640, 10, 20, 10, 20), Ok(()));
    assert_eq!(check_access(6, 0o640, 10, 20, 10, 20), Ok(()));
    assert_eq!(check_access(1, 0o640, 10, 20, 10, 20), denied("execute permission denied"));
    // group member
    assert_eq!(check_access(4, 0o640, 11, 20, 10, 20), Ok(()));
    assert_eq!(check_access(2, 0o640, 11, 20, 10, 20), denied("write permission denied"));
    // everyone else
    assert_eq!(check_access(4, 0o640, 11, 21, 10, 20), denied("read permission denied"));
    assert_eq!(check_access(7, 0o005, 11, 21, 10, 20), denied("write permission denied"));
    assert_eq!(check_access(5, 0o005, 11, 21, 10, 20), Ok(()));
    // reading is looked at first
    assert_eq!(check_access(7, 0o000, 10, 20, 10, 20), denied("read permission denied"));
}

#[test]
fn errors_describe_themselves() {
    let text = |e: VsysError| e.message();
    assert_eq!(text(VsysError::Io("broken pipe".into())), "I/O error: broken pipe");
    assert_eq!(text(VsysError::PermissionDenied("x".into())), "Permission denied: x");
    assert_eq!(text(VsysError::NotFound("x".into())), "Not found: x");
    assert_eq!(text(VsysError::NotSupported("x".into())), "Not supported: x");
    assert_eq!(text(VsysError::InvalidArgument("x".into())), "Invalid argument: x");
    assert_eq!(
        text(VsysError::ModuleResolution { specifier: "./a".into(), message: "gone".into() }),
        "Cannot resolve module './a': gone"
    );
    assert_eq!(
        text(VsysError::ModuleLoad { path: "/a.js".into(), message: "gone".into() }),
        "Cannot load module '/a.js': gone"
    );
    assert_eq!(
        text(VsysError::Custom { code: -42, message: "boom".into() }),
        "Error (code -42): boom"
    );
}

#[test]
fn errors_cross_the_boundary_with_their_code() {
    let ok = CVsysError::ok();
    assert_eq!(ok.code, CVsysError::OK);
    assert_eq!(ok.code, 0);
    assert_eq!(ok.message, None);
    let c = |e: VsysError| CVsysError::from_error(&e);
    assert_eq!(c(VsysError::Io("x".into())).code, CVsysError::ERR_IO);
    assert_eq!(c(VsysError::Io("x".into())).code, -1);
    assert_eq!(c(VsysError::PermissionDenied("x".into())).code, -2);
    assert_eq!(c(VsysError::NotFound("x".into())).code, -3);
    assert_eq!(c(VsysError::NotSupported("x".into())).code, -4);
    assert_eq!(c(VsysError::InvalidArgument("x".into())).code, -5);
    assert_eq!(
        c(VsysError::ModuleResolution { specifier: "a".into(), message: "b".into() }).code,
        CVsysError::ERR_MODULE_RESOLUTION
    );
    assert_eq!(c(VsysError::ModuleLoad { path: "a".into(), message: "b".into() }).code, -7);
    let custom = c(VsysError::Custom { code: 99, message: "boom".into() });
    assert_eq!(custom.code, 99);
    assert_eq!(custom.message, Some("Error (code 99): boom".to_string()));
    let nul = c(VsysError::NotFound("a\0b".into()));
    assert_eq!(nul.code, CVsysError::ERR_NOT_FOUND);
    assert_eq!(nul.message, Some("Unknown error".to_string()));
}

#[test]
fn system_errors_keep_their_kind() {
    assert_eq!(VsysError::from_io(IoKind::NotFound, "a".into()), VsysError::NotFound("a".into()));
    assert_eq!(
        VsysError::from_io(IoKind::PermissionDenied, "a".into()),
        VsysError::PermissionDenied("a".into())
    );
    assert_eq!(VsysError::from_io(IoKind::Other, "a".into()), VsysError::Io("a".into()));
}

#[test]
fn test_is_builtin() {
    assert!(default_is_builtin("fs"));
    assert!(default_is_builtin("node:fs"));
    assert!(default_is_builtin("path"));
    assert!(!default_is_builtin("lodash"));
    assert!(!default_is_builtin("./foo"));
}

#[test]
fn test_resolve_builtin() {
    let vtable = ModuleLoaderVTable::default();
    let fs = FsVTable::default();
    let host = MemFs::new();
    let result = vtable.resolve(&host, &fs, "node:fs", "/app/index.js", true).unwrap();
    assert!(result.is_builtin);
    assert_eq!(result.path, "fs");
    assert_eq!(host.calls.get(), 0);
}

#[test]
fn test_builtins_only() {
    let vtable = ModuleLoaderVTable::builtins_only();
    let fs = FsVTable::default();
    let host = MemFs::new().with_file("/app/./foo", b"");

    // Built-in should work
    let result = vtable.resolve(&host, &fs, "fs", "/app/index.js", true);
    assert!(result.is_ok());

    // Non-builtin should fail
    let result = vtable.resolve(&host, &fs, "./foo", "/app/index.js", true);
    assert!(result.is_err());
    assert_eq!(host.calls.get(), 0);
}

#[test]
fn test_detect_format() {
    assert_eq!(detect_format("foo.mjs"), ModuleFormat::ESM);
    assert_eq!(detect_format("foo.cjs"), ModuleFormat::CJS);
    assert_eq!(detect_format("foo.json"), ModuleFormat::Json);
    assert_eq!(detect_format("foo.js"), ModuleFormat::ESM);
}

#[test]
fn test_resolved_module_cjs_wrapper() {
    let resolved = ResolvedModule {
        path: "/app/lib.cjs".to_string(),
        format: ModuleFormat::CJS,
        is_builtin: false,
        needs_cjs_wrapper: true,
    };
    assert!(resolved.needs_cjs_wrapper);
}

#[test]
fn test_default_vsys() {
    let vsys = Vsys::default();
    assert!(vsys.permissions.stdio);
}

#[test]
fn test_sandboxed_vsys() {
    let vsys = Vsys::sandboxed();
    assert!(!vsys.permissions.stdio);
}

#[test]
fn test_builder() {
    let vsys = Vsys::builder().permissions(Permissions::default()).build();
    assert!(!vsys.permissions.stdio);
}

#[test]
fn builder_keeps_what_it_is_given() {
    let vsys = Vsys::builder()
        .fs(FsVTable::read_only())
        .module_loader(ModuleLoaderVTable::builtins_only())
        .build();
    assert_eq!(*vsys.fs(), FsVTable::read_only());
    assert_eq!(*vsys.module_loader(), ModuleLoaderVTable::BuiltinsOnly);
    assert!(vsys.permissions().stdio);
    let plain = Vsys::new();
    assert_eq!(plain.fs, FsVTable::default());
    assert_eq!(plain.module_loader, ModuleLoaderVTable::Host);
    assert_eq!(Vsys::sandboxed().fs, FsVTable::deny_all());
}

#[test]
fn formats_go_by_the_extension() {
    assert_eq!(detect_format("a/b.mts"), ModuleFormat::ESM);
    assert_eq!(detect_format("a/b.cts"), ModuleFormat::CJS);
    assert_eq!(detect_format("a/b.ts"), ModuleFormat::ESM);
    assert_eq!(detect_format("a/b.tsx"), ModuleFormat::ESM);
    assert_eq!(detect_format("a/b.jsx"), ModuleFormat::ESM);
    assert_eq!(detect_format("a/b.wasm"), ModuleFormat::Binary);
    assert_eq!(detect_format("a/b"), ModuleFormat::Binary);
    assert_eq!(detect_format("a.js/b"), ModuleFormat::Binary);
    assert_eq!(detect_format(".js"), ModuleFormat::Binary);
}

#[test]
fn builtin_names_are_listed() {
    let names = default_list_builtins();
    assert_eq!(names.len(), 44);
    assert_eq!(names[0], "assert");
    assert_eq!(names[13], "fs/promises");
    assert_eq!(names[43], "zlib");
    assert!(names.iter().all(|n| default_is_builtin(n)));
    assert!(default_is_builtin("node:timers/promises"));
    assert!(!default_is_builtin("node:lodash"));
    assert!(!default_is_builtin("node:"));
    assert!(!default_is_builtin("fs "));
    let loader = ModuleLoaderVTable::Host;
    assert!(loader.is_builtin("node:os"));
    assert_eq!(loader.list_builtins(), names);
}

#[test]
fn builtins_only_refuses_everything_else() {
    let module = builtins_only_resolve("node:path", "/app/index.js", false).unwrap();
    assert_eq!(module.path, "path");
    assert_eq!(module.format, ModuleFormat::ESM);
    assert!(module.is_builtin);
    assert!(!module.needs_cjs_wrapper);
    assert_eq!(
        builtins_only_resolve("lodash", "/app/index.js", true).err(),
        Some(VsysError::ModuleResolution {
            specifier: "lodash".to_string(),
            message: "Only built-in modules are allowed".to_string(),
        })
    );
    assert_eq!(
        builtins_only_load("/app/a.js").err(),
        Some(VsysError::ModuleLoad {
            path: "/app/a.js".to_string(),
            message: "Only built-in modules are allowed".to_string(),
        })
    );
    let host = MemFs::new().with_file("/app/package.json", b"{}");
    let fs = FsVTable::default();
    let loader = ModuleLoaderVTable::builtins_only();
    assert!(loader.load(&host, &fs, "/app/package.json").is_err());
    assert!(!loader.module_exists(&host, &fs, "/app/package.json"));
    assert_eq!(loader.find_package_json(&host, &fs, "/app"), None);
    assert_eq!(
        loader.read_package_json(&host, &fs, "/app/package.json").err(),
        Some(VsysError::ModuleResolution {
            specifier: String::new(),
            message: "Filesystem access not allowed".to_string(),
        })
    );
    assert_eq!(host.calls.get(), 0);
}

#[test]
fn specifiers_are_told_apart() {
    match lookup("node:anything", "/app/index.js") {
        Lookup::Builtin(module) => {
            assert_eq!(module.path, "anything");
            assert!(module.is_builtin);
        }
        other => panic!("{:?}", other),
    }
    match lookup("file://./lib/a", "/app/index.js") {
        Lookup::File { specifier, path } => {
            assert_eq!(specifier, "./lib/a");
            assert_eq!(path, "/app/./lib/a");
        }
        other => panic!("{:?}", other),
    }
    match lookup("../a", "index.js") {
        Lookup::File { specifier, path } => {
            assert_eq!(specifier, "../a");
            assert_eq!(path, "../a");
        }
        other => panic!("{:?}", other),
    }
    match lookup("/abs/a.js", "/app/index.js") {
        Lookup::File { path, .. } => assert_eq!(path, "/abs/a.js"),
        other => panic!("{:?}", other),
    }
    match lookup("./a", "") {
        Lookup::File { path, .. } => assert_eq!(path, "././a"),
        other => panic!("{:?}", other),
    }
    match lookup("lodash/fp", "/app/index.js") {
        Lookup::Package { specifier } => assert_eq!(specifier, "lodash/fp"),
        other => panic!("{:?}", other),
    }
}

#[test]
fn places_are_tried_in_order() {
    assert_eq!(
        file_candidates("/app/lib"),
        vec![
            "/app/lib",
            "/app/lib.js",
            "/app/lib.mjs",
            "/app/lib.cjs",
            "/app/lib.ts",
            "/app/lib.mts",
            "/app/lib.cts",
            "/app/lib.tsx",
            "/app/lib.jsx",
            "/app/lib.json",
        ]
    );
    assert_eq!(file_candidates("/app/a.min")[1], "/app/a.js");
    assert_eq!(
        index_candidates("/app/lib", true),
        vec!["/app/lib/index.js", "/app/lib/index.mjs", "/app/lib/index.cjs"]
    );
    let all = index_candidates("/app/lib", false);
    assert_eq!(all.len(), 9);
    assert_eq!(all[3], "/app/lib/index.ts");
    assert_eq!(all[8], "/app/lib/index.json");
    assert_eq!(ancestors("/app/src/index.js"), vec!["/app/src", "/app", "/"]);
    assert_eq!(ancestors("a/b"), vec!["a", ""]);
    assert_eq!(ancestors(""), Vec::<String>::new());
    assert_eq!(
        package_candidates("/app/src/index.js", "lodash"),
        vec![
            "/app/src/node_modules/lodash",
            "/app/node_modules/lodash",
            "/node_modules/lodash",
        ]
    );
    assert_eq!(
        manifest_candidates("/app/src"),
        vec!["/app/src/package.json", "/app/package.json", "/package.json"]
    );
}

#[test]
fn files_are_found_by_extension_and_index() {
    let fs = FsVTable::default();
    let host = MemFs::new().with_file("/app/a.ts", b"");
    assert_eq!(
        try_resolve_file(&host, &fs, "/app/a", true),
        Some(("/app/a.ts".to_string(), ModuleFormat::ESM, false))
    );
    let host = MemFs::new().with_file("/app/a.cjs", b"").with_file("/app/a", b"");
    assert_eq!(
        try_resolve_file(&host, &fs, "/app/a", true),
        Some(("/app/a".to_string(), ModuleFormat::Binary, false))
    );
    let host = MemFs::new().with_dir("/app/lib").with_file("/app/lib/index.cjs", b"");
    assert_eq!(
        try_resolve_file(&host, &fs, "/app/lib", false),
        Some(("/app/lib/index.cjs".to_string(), ModuleFormat::CJS, true))
    );
    let host = MemFs::new().with_file("/app/lib/index.js", b"");
    assert_eq!(try_resolve_file(&host, &fs, "/app/lib", false), None);
    let host = MemFs::new().with_file("/app/a.ts", b"");
    assert_eq!(try_resolve_file(&host, &FsVTable::deny_all(), "/app/a", true), None);
}

#[test]
fn relative_imports_resolve_below_the_importer() {
    let fs = FsVTable::default();
    let host = MemFs::new().with_file("/app/./foo.cjs", b"");
    let module = default_resolve(&host, &fs, "./foo", "/app/index.js", true).unwrap();
    assert_eq!(module.path, "/app/./foo.cjs");
    assert_eq!(module.format, ModuleFormat::CJS);
    assert!(!module.is_builtin);
    assert!(module.needs_cjs_wrapper);
    let required = default_resolve(&host, &fs, "./foo", "/app/index.js", false).unwrap();
    assert!(!required.needs_cjs_wrapper);
    assert_eq!(
        default_resolve(&host, &fs, "./bar", "/app/index.js", true).err(),
        Some(VsysError::ModuleResolution {
            specifier: "./bar".to_string(),
            message: "Cannot find module './bar'".to_string(),
        })
    );
    assert_eq!(
        default_resolve(&host, &FsVTable::deny_all(), "./foo", "/app/index.js", true).err(),
        Some(not_found("./foo", true))
    );
}

#[test]
fn packages_resolve_through_node_modules() {
    let fs = FsVTable::default();
    let host = MemFs::new()
        .with_file("/app/node_modules/lodash/package.json", b"{\"main\": \"lib/main.js\"}")
        .with_file("/app/node_modules/lodash/lib/main.js", b"");
    let module = default_resolve(&host, &fs, "lodash", "/app/src/index.js", true).unwrap();
    assert_eq!(module.path, "/app/node_modules/lodash/lib/main.js");
    assert_eq!(module.format, ModuleFormat::ESM);
    assert!(module.needs_cjs_wrapper);

    let host = MemFs::new()
        .with_file(
            "/app/node_modules/esm/package.json",
            b"{\"type\": \"module\", \"module\": \"m.js\", \"main\": \"c.js\"}",
        )
        .with_file("/app/node_modules/esm/m.js", b"")
        .with_file("/app/node_modules/esm/c.js", b"");
    let imported = default_resolve(&host, &fs, "esm", "/app/index.js", true).unwrap();
    assert_eq!(imported.path, "/app/node_modules/esm/m.js");
    assert!(!imported.needs_cjs_wrapper);
    let required = default_resolve(&host, &fs, "esm", "/app/index.js", false).unwrap();
    assert_eq!(required.path, "/app/node_modules/esm/c.js");

    let host = MemFs::new()
        .with_file("/app/node_modules/idx/package.json", b"{}")
        .with_file("/app/node_modules/idx/index.mjs", b"");
    assert_eq!(
        try_resolve_node_modules(&host, &fs, "idx", "/app/index.js", true),
        Some(("/app/node_modules/idx/index.mjs".to_string(), ModuleFormat::ESM, true))
    );

    let host = MemFs::new().with_file("/node_modules/single.js", b"");
    assert_eq!(
        try_resolve_node_modules(&host, &fs, "single", "/app/src/index.js", true),
        Some(("/node_modules/single.js".to_string(), ModuleFormat::ESM, false))
    );

    assert_eq!(
        default_resolve(&MemFs::new(), &fs, "missing", "/app/index.js", true).err(),
        Some(VsysError::ModuleResolution {
            specifier: "missing".to_string(),
            message: "Cannot find package 'missing'".to_string(),
        })
    );
}

#[test]
fn manifests_name_their_entry_points() {
    let text = |t: &str| JsonField::Text(t.to_string());
    let json = PackageJson {
        module_type: JsonField::Absent,
        exports_import: text("i.js"),
        exports_require: text("r.js"),
        module: text("m.js"),
        main: text("c.js"),
    };
    assert!(json.is_commonjs());
    assert_eq!(json.entry_point(true), Some("i.js".to_string()));
    assert_eq!(json.entry_point(false), Some("r.js".to_string()));
    let json = PackageJson {
        module_type: text("module"),
        exports_import: JsonField::Absent,
        exports_require: JsonField::Absent,
        module: JsonField::Other,
        main: text("c.js"),
    };
    assert!(!json.is_commonjs());
    assert_eq!(json.entry_point(true), None);
    assert_eq!(json.entry_point(false), Some("c.js".to_string()));
    let json = PackageJson {
        module_type: text("commonjs"),
        exports_import: JsonField::Absent,
        exports_require: JsonField::Absent,
        module: JsonField::Absent,
        main: JsonField::Absent,
    };
    assert!(json.is_commonjs());
    assert_eq!(json.entry_point(true), None);
    assert_eq!(json.entry_point(false), None);
    let other = PackageJson { module_type: JsonField::Other, ..json };
    assert!(other.is_commonjs());
}

#[test]
fn manifests_are_read_through_the_table() {
    let fs = FsVTable::default();
    let host = MemFs::new()
        .with_file(
            "/app/package.json",
            b"{\"type\": \"module\", \"exports\": {\".\": {\"import\": \"./i.js\", \"require\": 1}}, \"main\": \"c.js\"}",
        )
        .with_file("/bad/package.json", b"{not json");
    let json = default_read_package_json(&host, &fs, "/app/package.json").unwrap();
    assert_eq!(json.module_type, JsonField::Text("module".to_string()));
    assert_eq!(json.exports_import, JsonField::Text("./i.js".to_string()));
    assert_eq!(json.exports_require, JsonField::Other);
    assert_eq!(json.module, JsonField::Absent);
    assert_eq!(json.main, JsonField::Text("c.js".to_string()));
    match default_read_package_json(&host, &fs, "/bad/package.json") {
        Err(VsysError::ModuleLoad { path, message }) => {
            assert_eq!(path, "/bad/package.json");
            assert!(message.starts_with("Failed to parse package.json: "));
        }
        other => panic!("{:?}", other),
    }
    assert_eq!(
        default_read_package_json(&host, &fs, "/none/package.json"),
        Err(VsysError::NotFound("/none/package.json".to_string()))
    );
    assert_eq!(
        default_read_package_json(&host, &FsVTable::deny_all(), "/app/package.json"),
        Err(VsysError::PermissionDenied("fs read denied".to_string()))
    );
    assert_eq!(
        default_find_package_json(&host, &fs, "/app/src/deep"),
        Some("/app/package.json".to_string())
    );
    assert_eq!(default_find_package_json(&host, &fs, "/other"), None);
    assert_eq!(default_find_package_json(&host, &FsVTable::deny_all(), "/app"), None);
    assert!(default_exists(&host, &fs, "/app/package.json"));
    assert!(!default_exists(&host, &FsVTable::deny_all(), "/app/package.json"));
}

#[test]
fn modules_are_loaded_with_their_format() {
    let fs = FsVTable::default();
    let host = MemFs::new().with_file("/app/a.json", b"{}");
    let source = default_load(&host, &fs, "/app/a.json").unwrap();
    assert_eq!(source.source, b"{}");
    assert_eq!(source.format, ModuleFormat::Json);
    assert_eq!(source.path, "/app/a.json");
    assert_eq!(
        default_load(&host, &fs, "node:fs").err(),
        Some(VsysError::ModuleLoad {
            path: "node:fs".to_string(),
            message: "Built-in modules should be loaded by the runtime".to_string(),
        })
    );
    assert_eq!(
        default_load(&host, &fs, "/app/b.js").err(),
        Some(VsysError::NotFound("/app/b.js".to_string()))
    );
    assert_eq!(
        default_load(&host, &FsVTable::read_only(), "/app/a.json").unwrap().format,
        ModuleFormat::Json
    );
    assert_eq!(
        default_load(&host, &FsVTable::deny_all(), "/app/a.json").err(),
        Some(VsysError::PermissionDenied("fs read denied".to_string()))
    );
}

#[test]
fn a_path_resolves_to_the_file_with_the_first_extension_that_exists() {
    let fs = FsVTable::default();
    let host = MemFs::new().with_file("/abs/foo.cjs", b"");
    let module = default_resolve(&host, &fs, "/abs/foo", "/app/index.js", true).unwrap();
    assert_eq!(module.path, "/abs/foo.cjs");
    assert_eq!(module.format, ModuleFormat::CJS);
    assert!(!module.is_builtin);
    assert!(module.needs_cjs_wrapper);
    let required = default_resolve(&host, &fs, "/abs/foo", "/app/index.js", false).unwrap();
    assert_eq!(required.path, "/abs/foo.cjs");
    assert_eq!(required.format, ModuleFormat::CJS);
    assert!(!required.needs_cjs_wrapper);
    assert_eq!(
        default_resolve(&host, &FsVTable::deny_all(), "/abs/foo", "/app/index.js", true).err(),
        Some(VsysError::ModuleResolution {
            specifier: "/abs/foo".to_string(),
            message: "Cannot find module '/abs/foo'".to_string(),
        })
    );
    let both = MemFs::new().with_file("/abs/foo.cjs", b"").with_file("/abs/foo.mjs", b"");
    assert_eq!(
        default_resolve(&both, &fs, "/abs/foo", "/app/index.js", true).unwrap().path,
        "/abs/foo.mjs"
    );
}

#[test]
fn a_handle_hands_on_what_its_file_answers() {
    struct Short;
    impl FsHandleOps for Short {
        fn read(&mut self, buf: &mut [u8]) -> VsysResult<usize> {
            buf[0] = 7;
            Ok(1)
        }
        fn write(&mut self, _buf: &[u8]) -> VsysResult<usize> {
            Ok(1)
        }
        fn seek(&mut self, _pos: SeekFrom) -> VsysResult<u64> {
            Err(VsysError::Io("no seek".to_string()))
        }
        fn sync_all(&self) -> VsysResult<()> {
            Err(VsysError::Io("no sync".to_string()))
        }
        fn sync_data(&self) -> VsysResult<()> {
            Ok(())
        }
        fn stat(&self) -> VsysResult<FileStat> {
            Err(VsysError::NotSupported("stat".to_string()))
        }
        fn set_len(&self, _size: u64) -> VsysResult<()> {
            Ok(())
        }
        fn set_permissions(&self, _readonly: bool) -> VsysResult<()> {
            Ok(())
        }
        fn set_mode(&self, _mode: u32) -> VsysResult<()> {
            Ok(())
        }
    }
    let mut handle = FsHandle::new(Short);
    let mut buf = [0u8; 4];
    assert_eq!(handle.read(&mut buf), Ok(1));
    assert_eq!(buf, [7, 0, 0, 0]);
    assert_eq!(handle.write(b"abc"), Ok(1));
    assert_eq!(handle.seek(SeekFrom::Start(0)), Err(VsysError::Io("no seek".to_string())));
    assert_eq!(handle.sync_all(), Err(VsysError::Io("no sync".to_string())));
    assert_eq!(handle.stat().err(), Some(VsysError::NotSupported("stat".to_string())));
}

#[test]
fn a_manifest_gives_its_entry_points_by_their_keys() {
    let json = parse_manifest(
        b"{\"type\": \"commonjs\", \"module\": \"m.mjs\", \"main\": [1], \"exports\": {\".\": {\"require\": \"./r.cjs\"}, \"import\": \"./wrong.js\"}}",
    )
    .unwrap();
    assert_eq!(json.module_type, JsonField::Text("commonjs".to_string()));
    assert_eq!(json.module, JsonField::Text("m.mjs".to_string()));
    assert_eq!(json.main, JsonField::Other);
    assert_eq!(json.exports_import, JsonField::Absent);
    assert_eq!(json.exports_require, JsonField::Text("./r.cjs".to_string()));
}

#[test]
fn a_manifest_without_an_object_under_its_keys_has_no_entry_points() {
    let text = parse_manifest(b"{\"exports\": \"./index.js\"}").unwrap();
    assert_eq!(text.exports_import, JsonField::Absent);
    assert_eq!(text.exports_require, JsonField::Absent);
    let dot = parse_manifest(b"{\"exports\": {\".\": \"./index.js\"}}").unwrap();
    assert_eq!(dot.exports_import, JsonField::Absent);
    assert_eq!(dot.exports_require, JsonField::Absent);
    let list = parse_manifest(b"[\"type\", \"main\"]").unwrap();
    assert_eq!(list.module_type, JsonField::Absent);
    assert_eq!(list.main, JsonField::Absent);
    let empty = parse_manifest(b"{}").unwrap();
    assert_eq!(empty.module_type, JsonField::Absent);
    assert_eq!(empty.exports_import, JsonField::Absent);
    assert_eq!(empty.exports_require, JsonField::Absent);
    assert_eq!(empty.module, JsonField::Absent);
    assert_eq!(empty.main, JsonField::Absent);
}

#[test]
fn bytes_that_are_no_json_are_no_manifest() {
    assert!(parse_manifest(b"{not json").is_err());
    assert!(parse_manifest(b"").is_err());
    assert!(parse_manifest(b"{\"type\": \"module\"} trailing").is_err());
}
