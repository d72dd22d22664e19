use vstd::prelude::*;
use vstd::string::*;

verus! {

/// The base directories, searched in this order: the user's own icons, then
/// the system-wide ones, then the locally installed ones.
pub open spec fn base_directories() -> Seq<Seq<char>> {
    seq!["~/.icons"@, "/usr/share/icons"@, "/usr/local/share/icons"@]
}

/// The icon file extensions, tried in this order.
pub open spec fn allowed_extensions() -> Seq<Seq<char>> {
    seq!["png"@, "svg"@, "xpm"@]
}

/// `{root}/{theme}/{directory}/{icon}.{extension}`
pub open spec fn themed_path(
    root: Seq<char>,
    theme: Seq<char>,
    directory: Seq<char>,
    icon: Seq<char>,
    extension: Seq<char>,
) -> Seq<char> {
    root + seq!['/'] + theme + seq!['/'] + directory + seq!['/'] + icon + seq!['.'] + extension
}

/// `{root}/{icon}.{extension}`
pub open spec fn unthemed_path(root: Seq<char>, icon: Seq<char>, extension: Seq<char>) -> Seq<char> {
    root + seq!['/'] + icon + seq!['.'] + extension
}

/// `{root}/index.theme`
pub open spec fn index_path(root: Seq<char>) -> Seq<char> {
    root + "/index.theme"@
}

pub fn base_directory(i: usize) -> (r: &'static str)
    requires
        i < 3,
    ensures
        r@ == base_directories()[i as int],
{
    if i == 0 {
        "~/.icons"
    } else if i == 1 {
        "/usr/share/icons"
    } else {
        "/usr/local/share/icons"
    }
}

pub fn allowed_extension(i: usize) -> (r: &'static str)
    requires
        i < 3,
    ensures
        r@ == allowed_extensions()[i as int],
{
    if i == 0 {
        "png"
    } else if i == 1 {
        "svg"
    } else {
        "xpm"
    }
}

pub fn build_themed_path(root: &str, theme: &str, directory: &str, icon: &str, extension: &str) -> (r: String)
    ensures
        r@ == themed_path(root@, theme@, directory@, icon@, extension@),
{
    proof {
        reveal_strlit("/");
        reveal_strlit(".");
    }
    let mut p = String::from_str(root);
    p.append("/");
    p.append(theme);
    p.append("/");
    p.append(directory);
    p.append("/");
    p.append(icon);
    p.append(".");
    p.append(extension);
    p
}

pub fn build_unthemed_path(root: &str, icon: &str, extension: &str) -> (r: String)
    ensures
        r@ == unthemed_path(root@, icon@, extension@),
{
    proof {
        reveal_strlit("/");
        reveal_strlit(".");
    }
    let mut p = String::from_str(root);
    p.append("/");
    p.append(icon);
    p.append(".");
    p.append(extension);
    p
}

pub fn build_index_path(root: &str) -> (r: String)
    ensures
        r@ == index_path(root@),
{
    let mut p = String::from_str(root);
    p.append("/index.theme");
    p
}

/// The files that exist under the base directories, as one lookup sees
/// them: a lookup tests a path for existence by asking this index.
pub struct FileIndex {
    paths: Vec<String>,
}

impl View for FileIndex {
    type V = Set<Seq<char>>;

    closed spec fn view(&self) -> Set<Seq<char>> {
        Set::new(|p: Seq<char>| exists|i: int| 0 <= i < self.paths.len() && self.paths@[i]@ == p)
    }
}

impl FileIndex {
    /// An index in which exactly the given paths exist.
    pub fn new(paths: Vec<String>) -> (r: FileIndex)
        ensures
            forall|p: Seq<char>| r@.contains(p) <==> exists|i: int| 0 <= i < paths.len() && (#[trigger] paths@[i])@ == p,
    {
        FileIndex { paths }
    }

    /// Whether `path` names an existing file.
    pub fn path_exists(&self, path: &String) -> (r: bool)
        ensures
            r == self@.contains(path@),
    {
        let mut i: usize = 0;
        while i < self.paths.len()
            invariant
                i <= self.paths.len(),
                forall|j: int| 0 <= j < i ==> (#[trigger] self.paths@[j])@ != path@,
            decreases self.paths.len() - i,
        {
            if self.paths[i] == *path {
                return true;
            }
            i += 1;
        }
        false
    }
}

} // verus!
