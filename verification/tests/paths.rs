use ramup::apperror::{AppError, FileSystemError, PathError};
use ramup::apppath::{AbsPath, PathEnv};
use std::path::Path;

fn env() -> PathEnv {
    PathEnv { home: Some("/home/u".to_string()), cwd: Some("/work/dir".to_string()) }
}

fn abs(p: &str) -> AbsPath {
    AbsPath::new(p, &env()).unwrap()
}

#[test]
fn apppath_from() {
    let home = "/home/u";
    let abs = AbsPath::new("~/./hoge", &env()).unwrap();
    assert_eq!(format!("{}/hoge", home), abs.to_string());
    let abs = AbsPath::new(Path::new("~/./hoge").to_str().unwrap(), &env()).unwrap();
    assert_eq!(format!("{}/hoge", home), abs.to_string());
    let abs = AbsPath::new(&String::from("~/./hoge"), &env()).unwrap();
    assert_eq!(format!("{}/hoge", home), abs.to_string());
}

#[test]
fn apppath_parent() {
    let abs = AbsPath::new("~/./hoge", &env()).unwrap();
    let abs = abs.parent().unwrap();
    let home = "/home/u";
    assert_eq!(format!("{}", home), abs.to_string());
}

#[test]
fn path_parent() {
    let abs = AbsPath::new("~/./hoge", &env()).unwrap();
    let abs = abs.parent().unwrap();
    let home = "/home/u";
    assert_eq!(format!("{}", home), abs.to_string());
}

#[test]
fn equal_paths_have_equal_text() {
    assert!(abs("~/./hoge") == abs("/home/u/hoge"));
    assert!(abs("/a/b") != abs("/a/b/"));
    assert!(abs("/a/b") != abs("/a/B"));
}

#[test]
fn apppath_join() {
    let home = "/home/u";

    let abs = AbsPath::new("~/././hoge", &env()).unwrap();
    let abs = abs.join("fuga");
    assert_eq!(format!("{}/hoge/fuga", home), abs.to_string());

    let abs = AbsPath::new("~/./hoge", &env()).unwrap();
    let abs = abs.join("/fuga");
    assert_eq!(format!("{}/hoge/fuga", home), abs.to_string());
}

#[test]
fn expand() {
    let home = "/home/u";
    let current = Path::new("/work/dir");
    let parent = current.parent().unwrap();

    let expect = Path::new(&current);
    let actual = AbsPath::expand(".", &env()).unwrap();
    assert_eq!(expect, Path::new(&actual));

    let expect = parent.to_path_buf();
    let actual = AbsPath::expand("..", &env()).unwrap();
    assert_eq!(expect, Path::new(&actual));

    let expect = Path::new(&current).join("hoge");
    let actual = AbsPath::expand("./hoge", &env()).unwrap();
    assert_eq!(expect, Path::new(&actual));

    let expect = Path::new(&home).join("hoge");
    let actual = AbsPath::expand("~/hoge", &env()).unwrap();
    assert_eq!(expect, Path::new(&actual));
}

#[test]
fn expand_gives_exact_strings() {
    assert_eq!(AbsPath::expand(".", &env()).unwrap(), "/work/dir/");
    assert_eq!(AbsPath::expand("..", &env()).unwrap(), "/work/");
    assert_eq!(AbsPath::expand("../x/y", &env()).unwrap(), "/work/x/y");
    assert_eq!(AbsPath::expand("./hoge", &env()).unwrap(), "/work/dir/hoge");
    assert_eq!(AbsPath::expand("~", &env()).unwrap(), "/home/u/");
    assert_eq!(AbsPath::expand("~/hoge", &env()).unwrap(), "/home/u/hoge");
    assert_eq!(AbsPath::expand("hoge", &env()).unwrap(), "hoge");
    assert_eq!(AbsPath::expand("/a/./b/./c", &env()).unwrap(), "/a/b/c");
    assert_eq!(AbsPath::expand("/a/././b", &env()).unwrap(), "/a/./b");
    assert_eq!(AbsPath::expand("~user/x", &env()).unwrap(), "~user/x");
    assert_eq!(AbsPath::expand(".hidden", &env()).unwrap(), ".hidden");
    assert_eq!(AbsPath::expand("..hidden", &env()).unwrap(), "..hidden");
    assert_eq!(AbsPath::expand("", &env()).unwrap(), "");
}

#[test]
fn expand_agrees_with_std_paths() {
    let home = Path::new("/home/u");
    let cwd = Path::new("/work/dir");
    for rest in ["", "/", "/x", "//x", "/./x", "/x/", "/x/.", "/x//y/"] {
        let tilde = format!("~{}", rest);
        let stripped = Path::new(&tilde).strip_prefix("~").unwrap();
        let squeezed = tilde.replace("/./", "/");
        let stripped_squeezed = Path::new(&squeezed).strip_prefix("~").unwrap();
        let _ = stripped;
        assert_eq!(
            AbsPath::expand(&tilde, &env()).unwrap(),
            home.join(stripped_squeezed).to_string_lossy()
        );
        let dot = format!(".{}", rest).replace("/./", "/");
        assert_eq!(
            AbsPath::expand(&dot, &env()).unwrap(),
            cwd.join(Path::new(&dot).strip_prefix(".").unwrap()).to_string_lossy()
        );
        let dots = format!("..{}", rest).replace("/./", "/");
        assert_eq!(
            AbsPath::expand(&dots, &env()).unwrap(),
            cwd.parent().unwrap().join(Path::new(&dots).strip_prefix("..").unwrap()).to_string_lossy()
        );
    }
}

#[test]
fn resolve_with_home_expansion() {
    assert_eq!(abs("~/./hoge").to_string(), "/home/u/hoge");
}

#[test]
fn new_puts_relative_paths_under_the_working_directory() {
    assert_eq!(abs("hoge").to_string(), "/work/dir/hoge");
    assert_eq!(abs("hoge/fuga").to_string(), "/work/dir/hoge/fuga");
    assert_eq!(abs("/already/rooted").to_string(), "/already/rooted");
    assert_eq!(abs("").to_string(), "/work/dir/");
}

#[test]
fn new_fails_without_the_directory_it_needs() {
    let no_home = PathEnv { home: None, cwd: Some("/work/dir".to_string()) };
    assert_eq!(AbsPath::new("~/x", &no_home).err(), Some(PathError::InvalidPath));
    assert_eq!(AbsPath::new("/x", &no_home).unwrap().to_string(), "/x");
    assert_eq!(AbsPath::new("x", &no_home).unwrap().to_string(), "/work/dir/x");

    let no_cwd = PathEnv { home: Some("/home/u".to_string()), cwd: None };
    assert_eq!(AbsPath::new("x", &no_cwd).err(), Some(PathError::InvalidPath));
    assert_eq!(AbsPath::new("./x", &no_cwd).err(), Some(PathError::InvalidPath));
    assert_eq!(AbsPath::new("../x", &no_cwd).err(), Some(PathError::InvalidPath));
    assert_eq!(AbsPath::new("~/x", &no_cwd).unwrap().to_string(), "/home/u/x");

    let relative = PathEnv { home: Some("home/u".to_string()), cwd: Some("work".to_string()) };
    assert_eq!(AbsPath::new("~/x", &relative).err(), Some(PathError::InvalidPath));
    assert_eq!(AbsPath::new("x", &relative).err(), Some(PathError::InvalidPath));

    let at_root = PathEnv { home: None, cwd: Some("/".to_string()) };
    assert_eq!(AbsPath::new("../x", &at_root).err(), Some(PathError::InvalidPath));
    assert_eq!(AbsPath::new("./x", &at_root).unwrap().to_string(), "/x");
}

#[test]
fn parent_of_a_root_fails() {
    assert_eq!(abs("/").parent().err(), Some(PathError::NoParent));
    assert_eq!(abs("//").parent().err(), Some(PathError::NoParent));
    assert_eq!(abs("/.").parent().err(), Some(PathError::NoParent));
    assert_eq!(abs("/home").parent().unwrap().to_string(), "/");
}

#[test]
fn parent_agrees_with_std_paths() {
    for p in ["/a", "/a/b", "/a/b/", "/a//b", "/a/./b", "/a/b/.", "/a/b/..", "/a/../b", "//a", "/a/b/c/d//"] {
        let expect = Path::new(p).parent().unwrap().to_string_lossy().to_string();
        let path = AbsPath::new(p, &PathEnv { home: None, cwd: None });
        // the squeeze of `/./` comes first, as in every new path
        let squeezed = p.replace("/./", "/");
        let expect = if squeezed == p {
            expect
        } else {
            Path::new(&squeezed).parent().unwrap().to_string_lossy().to_string()
        };
        assert_eq!(path.unwrap().parent().unwrap().to_string(), expect);
    }
}

#[test]
fn join_always_appends() {
    let base = abs("/home/u/hoge");
    assert_eq!(base.join("/fuga").to_string(), "/home/u/hoge/fuga");
    assert_eq!(base.join("fuga").to_string(), "/home/u/hoge/fuga");
    assert_eq!(base.join("//fuga/").to_string(), "/home/u/hoge/fuga");
    assert_eq!(base.join("/./fuga").to_string(), "/home/u/hoge/fuga");
    assert_eq!(base.join("/").to_string(), "/home/u/hoge/");
    assert_eq!(base.join("").to_string(), "/home/u/hoge/");
    assert_eq!(base.join("a/b").to_string(), "/home/u/hoge/a/b");
    assert_eq!(abs("/").join("/x").to_string(), "/x");
    assert_eq!(abs("/v/").join("/x/y").to_string(), "/v/x/y");
    for seg in ["/fuga", "fuga", "//", "/a/b/c", "~", ".."] {
        assert!(base.join(seg).to_string().starts_with("/home/u/hoge"));
    }
}

#[test]
fn join_agrees_with_std_paths() {
    let base = abs("/Volumes/RAMDisk");
    for seg in ["/Users/u/app-data", "/a//b/", "/./a", "/a/.", "//a", "/"] {
        let expect = Path::new("/Volumes/RAMDisk").join(Path::new(seg).strip_prefix("/").unwrap());
        assert_eq!(base.join(seg).to_string(), expect.to_string_lossy());
    }
}

#[test]
fn clone_keeps_the_path() {
    let a = abs("/a/b");
    assert_eq!(a.clone().to_string(), "/a/b");
    assert_eq!(a.as_str(), "/a/b");
}

#[test]
fn error_messages() {
    assert_eq!(PathError::InvalidPath.message(), "Invalid Path");
    assert_eq!(PathError::NoParent.message(), "There isn't parent path");
    assert_eq!(FileSystemError::NotExist("/a".to_string()).message(), "File doesn't exist: /a");
    assert_eq!(
        FileSystemError::FailedToGetMetaData("/a".to_string()).message(),
        "Failed to get metadata: /a"
    );
    assert_eq!(
        FileSystemError::NotSymbolicLink("/a".to_string()).message(),
        "File is not symbolic link: /a"
    );
    assert_eq!(
        FileSystemError::FileIsAlreadySymbolicLink("/a".to_string()).message(),
        "File is already symbolic link: /a"
    );
    assert_eq!(AppError::CommandError("boom".to_string()).message(), "FailedCommand: boom");
}

fn words(alphabet: &[char], longest: usize) -> Vec<String> {
    let mut all = vec![String::new()];
    let mut last = vec![String::new()];
    for _ in 0..longest {
        let mut next = Vec::new();
        for w in &last {
            for c in alphabet {
                let mut longer = w.clone();
                longer.push(*c);
                next.push(longer);
            }
        }
        all.extend(next.iter().cloned());
        last = next;
    }
    all
}

#[test]
fn parent_agrees_with_std_on_every_short_path() {
    let none = PathEnv { home: None, cwd: None };
    for w in words(&['/', '.', 'a'], 7) {
        let p = format!("/{}", w);
        if p.contains("/./") {
            continue;
        }
        let path = AbsPath::new(&p, &none).unwrap();
        assert_eq!(path.to_string(), p);
        let expect = Path::new(&p).parent().map(|q| q.to_string_lossy().to_string());
        assert_eq!(path.parent().ok().map(|q| q.to_string()), expect, "parent of {}", p);
    }
}

#[test]
fn join_agrees_with_std_on_every_short_segment() {
    let none = PathEnv { home: None, cwd: None };
    for base in ["/", "/b", "/b/", "/b/c"] {
        let path = AbsPath::new(base, &none).unwrap();
        for seg in words(&['/', '.', 'a', '~'], 6) {
            let s = Path::new(&seg);
            let expect = if s.has_root() {
                Path::new(base).join(s.strip_prefix("/").unwrap())
            } else {
                Path::new(base).join(s)
            };
            assert_eq!(path.join(&seg).to_string(), expect.to_string_lossy(), "{} + {}", base, seg);
        }
    }
}

#[test]
fn expand_agrees_with_std_on_every_short_path() {
    let home = Path::new("/home/u");
    let cwd = Path::new("/work/dir");
    for w in words(&['/', '.', 'a', '~'], 6) {
        let squeezed = w.replace("/./", "/");
        let p = Path::new(&squeezed);
        let homed = if p.starts_with("~") {
            home.join(p.strip_prefix("~").unwrap())
        } else {
            p.to_path_buf()
        };
        let expect = if homed.starts_with("..") {
            cwd.parent().unwrap().join(homed.strip_prefix("..").unwrap())
        } else if homed.starts_with(".") {
            cwd.join(homed.strip_prefix(".").unwrap())
        } else {
            homed
        };
        let got = AbsPath::expand(&w, &env()).unwrap();
        assert_eq!(got, expect.to_string_lossy(), "expand of {}", w);
        let absolute = if expect.has_root() { expect } else { cwd.join(expect) };
        assert_eq!(abs(&w).to_string(), absolute.to_string_lossy(), "new of {}", w);
    }
}
