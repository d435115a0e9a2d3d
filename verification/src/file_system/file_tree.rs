//! Trees of files and directories.
use vstd::prelude::*;
use vstd::string::*;
use crate::file_parsers::str_eq;
use crate::file_system::date_time::FsDateTime;

verus! {

/// Whether an entry is a file or a directory.
#[derive(Copy, Clone, Debug, PartialEq, Eq, Structural)]
pub enum FileEntryType {
    File,
    Directory,
}

/// Which of its names an entry is to be shown by.
#[derive(Copy, Clone, Debug, PartialEq, Eq, Structural)]
pub enum FileNameType {
    Short,
    Long,
}

impl Default for FileNameType {
    /// The short name.
    fn default() -> (r: Self)
        ensures
            r == FileNameType::Short,
    {
        FileNameType::Short
    }
}

/// A file or directory entry of a file system.
pub struct FileEntry {
    e_type: FileEntryType,
    short_name: String,
    long_name: Option<String>,
    path: String,
    size: u64,
    created: Option<FsDateTime>,
    modified: Option<FsDateTime>,
}

/// The contents of a file entry.
pub struct FileEntryView {
    pub e_type: FileEntryType,
    pub short_name: Seq<char>,
    pub long_name: Option<Seq<char>>,
    pub path: Seq<char>,
    pub size: u64,
    pub created: Option<FsDateTime>,
    pub modified: Option<FsDateTime>,
}

/// The view of an optional string.
pub open spec fn opt_str_view(s: Option<String>) -> Option<Seq<char>> {
    match s {
        Some(v) => Some(v@),
        None => None,
    }
}

impl View for FileEntry {
    type V = FileEntryView;

    closed spec fn view(&self) -> FileEntryView {
        FileEntryView {
            e_type: self.e_type,
            short_name: self.short_name@,
            long_name: opt_str_view(self.long_name),
            path: self.path@,
            size: self.size,
            created: self.created,
            modified: self.modified,
        }
    }
}

impl FileEntry {
    /// A directory entry has size 0.
    #[verifier::type_invariant]
    spec fn dir_has_no_size(self) -> bool {
        self.e_type == FileEntryType::Directory ==> self.size == 0
    }
}

impl Clone for FileEntry {
    /// A copy of the entry.
    fn clone(&self) -> (r: Self)
        ensures
            r@ == self@,
    {
        proof { use_type_invariant(self); }
        let long_name = match &self.long_name {
            Some(n) => Some(n.clone()),
            None => None,
        };
        FileEntry {
            e_type: self.e_type,
            short_name: self.short_name.clone(),
            long_name,
            path: self.path.clone(),
            size: self.size,
            created: self.created,
            modified: self.modified,
        }
    }
}

/// The extension of a file name: what follows its last dot, if it has a dot.
pub open spec fn ext_spec(name: Seq<char>) -> Option<Seq<char>> {
    match last_dot(name, name.len() as int) {
        Some(i) => Some(name.subrange(i + 1, name.len() as int)),
        None => None,
    }
}

/// The position of the last dot among the first `k` characters of `name`.
pub open spec fn last_dot(name: Seq<char>, k: int) -> Option<int>
    decreases k,
{
    if k <= 0 {
        None
    } else if name[k - 1] == '.' {
        Some(k - 1)
    } else {
        last_dot(name, k - 1)
    }
}

impl FileEntry {
    /// An entry with the given fields.
    pub fn new(
        e_type: FileEntryType,
        short_name: String,
        long_name: Option<String>,
        path: String,
        size: u64,
        created: Option<FsDateTime>,
        modified: Option<FsDateTime>,
    ) -> (r: FileEntry)
        requires
            e_type == FileEntryType::Directory ==> size == 0,
        ensures
            r@ == (FileEntryView {
                e_type,
                short_name: short_name@,
                long_name: opt_str_view(long_name),
                path: path@,
                size,
                created,
                modified,
            }),
    {
        FileEntry { e_type, short_name, long_name, path, size, created, modified }
    }

    /// The name of the requested type, if the entry has one.
    pub fn name(&self, name_type: FileNameType) -> (r: Option<&str>)
        ensures
            match name_type {
                FileNameType::Short => r matches Some(s) && s@ == self@.short_name,
                FileNameType::Long => match self@.long_name {
                    Some(l) => r matches Some(s) && s@ == l,
                    None => r is None,
                },
            },
    {
        match name_type {
            FileNameType::Short => Some(self.short_name.as_str()),
            FileNameType::Long => match &self.long_name {
                Some(n) => Some(n.as_str()),
                None => None,
            },
        }
    }

    /// The short name of the entry.
    pub fn short_name(&self) -> (r: &str)
        ensures
            r@ == self@.short_name,
    {
        self.short_name.as_str()
    }

    /// Whether the entry is a file or a directory.
    pub fn entry_type(&self) -> (r: FileEntryType)
        ensures
            r == self@.e_type,
    {
        self.e_type
    }

    /// The full short path of the entry.
    pub fn path(&self) -> (r: &str)
        ensures
            r@ == self@.path,
    {
        self.path.as_str()
    }

    /// The size of the file in bytes; 0 for a directory.
    pub fn size(&self) -> (r: u64)
        ensures
            r == self@.size,
            self@.e_type == FileEntryType::Directory ==> r == 0,
    {
        proof { use_type_invariant(self); }
        self.size
    }

    /// Whether the entry is a file.
    pub fn is_file(&self) -> (r: bool)
        ensures
            r == (self@.e_type == FileEntryType::File),
    {
        matches!(self.e_type, FileEntryType::File)
    }

    /// Whether the entry is a directory.
    pub fn is_dir(&self) -> (r: bool)
        ensures
            r == (self@.e_type == FileEntryType::Directory),
    {
        matches!(self.e_type, FileEntryType::Directory)
    }

    /// The extension of the short name: what follows its last dot, if it has a dot.
    pub fn ext(&self) -> (r: Option<&str>)
        ensures
            match ext_spec(self@.short_name) {
                Some(e) => r matches Some(s) && s@ == e,
                None => r is None,
            },
    {
        let name = self.short_name.as_str();
        let n = name.unicode_len();
        let mut k: usize = n;
        while k > 0
            invariant
                k <= n,
                n == name@.len(),
                name@ == self@.short_name,
                last_dot(name@, n as int) == last_dot(name@, k as int),
            decreases k,
        {
            if name.get_char(k - 1) == '.' {
                return Some(name.substring_char(k, n));
            }
            k -= 1;
        }
        None
    }

    /// When the entry was last modified, if known.
    pub fn modified(&self) -> (r: Option<&FsDateTime>)
        ensures
            match self@.modified {
                Some(m) => r matches Some(x) && *x == m,
                None => r is None,
            },
    {
        self.modified.as_ref()
    }

    /// When the entry was created, if known.
    pub fn created(&self) -> (r: Option<&FsDateTime>)
        ensures
            match self@.created {
                Some(m) => r matches Some(x) && *x == m,
                None => r is None,
            },
    {
        self.created.as_ref()
    }
}

/// A node of a file tree: a file, or a directory with its entry and its children.
pub enum FileTreeNode {
    File(FileEntry),
    Directory { dfe: FileEntry, children: Vec<FileTreeNode> },
}

/// The file entries that a walk from `node` visits: a file's own entry, and, for a directory
/// when the walk is recursive, those of its children in order. A walk that is not recursive
/// visits nothing at a directory.
pub open spec fn tree_files(node: FileTreeNode, recursive: bool) -> Seq<FileEntryView>
    decreases node, 0nat,
{
    match node {
        FileTreeNode::File(e) => seq![e@],
        FileTreeNode::Directory { dfe, children } => if recursive {
            forest_files(children@, recursive, children@.len())
        } else {
            Seq::empty()
        },
    }
}

/// The file entries that walks from the first `k` of `nodes` visit, one after the other.
pub open spec fn forest_files(nodes: Seq<FileTreeNode>, recursive: bool, k: nat) -> Seq<FileEntryView>
    decreases nodes, k,
{
    if k == 0 || k > nodes.len() {
        Seq::empty()
    } else {
        forest_files(nodes, recursive, (k - 1) as nat) + tree_files(nodes[k - 1], recursive)
    }
}

/// Whether a node is a directory.
pub open spec fn is_dir_node(node: FileTreeNode) -> bool {
    node is Directory
}

/// The number of directories among the first `k` of `nodes`.
pub open spec fn dir_count(nodes: Seq<FileTreeNode>, k: int) -> int
    decreases k,
{
    if k <= 0 {
        0
    } else {
        dir_count(nodes, k - 1) + if nodes[k - 1] is Directory { 1int } else { 0int }
    }
}

/// The name of an entry of the requested type, falling back on the short name.
pub open spec fn display_name(e: FileEntryView, name_type: FileNameType) -> Seq<char> {
    match name_type {
        FileNameType::Short => e.short_name,
        FileNameType::Long => match e.long_name {
            Some(l) => l,
            None => e.short_name,
        },
    }
}

/// The components of a path, those of the text from `i` on, the current one having started at
/// `start`: the pieces between slashes, without the empty ones.
pub open spec fn path_components_from(s: Seq<char>, i: int, start: int) -> Seq<Seq<char>>
    decreases s.len() - i,
{
    if i >= s.len() {
        if start < s.len() { seq![s.subrange(start, s.len() as int)] } else { Seq::empty() }
    } else if s[i] == '/' {
        (if start < i { seq![s.subrange(start, i)] } else { Seq::empty() }) + path_components_from(s, i + 1, i + 1)
    } else {
        path_components_from(s, i + 1, start)
    }
}

/// The components of a path: the pieces between slashes, without the empty ones.
pub open spec fn path_components(s: Seq<char>) -> Seq<Seq<char>> {
    path_components_from(s, 0, 0)
}

/// The first directory among the first `k` of `nodes`, in order, whose entry has the short
/// name `name`.
pub open spec fn find_dir(nodes: Seq<FileTreeNode>, name: Seq<char>, k: int) -> Option<int>
    decreases k,
{
    if k <= 0 {
        None
    } else {
        match find_dir(nodes, name, k - 1) {
            Some(i) => Some(i),
            None => match nodes[k - 1] {
                FileTreeNode::Directory { dfe, .. } => if dfe@.short_name == name { Some(k - 1) } else { None },
                _ => None,
            },
        }
    }
}

/// The node reached from `node` by following the directory names of `comps`.
pub open spec fn resolve_spec(node: FileTreeNode, comps: Seq<Seq<char>>) -> Option<FileTreeNode>
    decreases node,
{
    match node {
        FileTreeNode::File(_) => None,
        FileTreeNode::Directory { dfe, children } => if comps.len() == 0 {
            Some(node)
        } else {
            match find_dir(children@, comps[0], children@.len() as int) {
                Some(i) => if 0 <= i < children@.len() {
                    resolve_spec(children@[i], comps.drop_first())
                } else {
                    None
                },
                None => None,
            }
        },
    }
}

/// The entry of a node.
pub open spec fn node_entry(node: FileTreeNode) -> FileEntryView {
    match node {
        FileTreeNode::File(e) => e@,
        FileTreeNode::Directory { dfe, .. } => dfe@,
    }
}

/// Split a path into its components.
fn split_path<'a>(path: &'a str) -> (r: Vec<&'a str>)
    ensures
        r@.map_values(|c: &str| c@) == path_components(path@),
{
    let n = path.unicode_len();
    let mut out: Vec<&'a str> = Vec::new();
    let mut start: usize = 0;
    let mut i: usize = 0;
    while i < n
        invariant
            n == path@.len(),
            start <= i <= n,
            out@.map_values(|c: &str| c@) + path_components_from(path@, i as int, start as int) == path_components(path@),
        decreases n - i,
    {
        if path.get_char(i) == '/' {
            if start < i {
                let ghost before = out@;
                out.push(path.substring_char(start, i));
                proof {
                    assert(out@.map_values(|c: &str| c@) =~= before.map_values(|c: &str| c@) + seq![path@.subrange(start as int, i as int)]);
                }
            }
            start = i + 1;
        }
        i += 1;
    }
    if start < n {
        let ghost before = out@;
        out.push(path.substring_char(start, n));
        proof {
            assert(out@.map_values(|c: &str| c@) =~= before.map_values(|c: &str| c@) + seq![path@.subrange(start as int, n as int)]);
        }
    }
    proof {
        assert(out@.map_values(|c: &str| c@) =~= path_components(path@));
    }
    out
}

impl FileTreeNode {
    /// An empty root directory named "/".
    pub fn root() -> (r: FileTreeNode)
        ensures
            r matches FileTreeNode::Directory { dfe, children } && children@.len() == 0
                && dfe@.e_type == FileEntryType::Directory && dfe@.short_name == "/"@
                && dfe@.long_name == Some("/"@) && dfe@.path == "/"@ && dfe@.size == 0
                && dfe@.created is None && dfe@.modified is None,
    {
        FileTreeNode::Directory {
            dfe: FileEntry {
                e_type: FileEntryType::Directory,
                short_name: "/".to_owned(),
                long_name: Some("/".to_owned()),
                path: "/".to_owned(),
                size: 0,
                created: None,
                modified: None,
            },
            children: Vec::new(),
        }
    }

    /// The number of directories directly below this node; 0 for a file.
    pub fn sub_dir_ct(&self) -> (r: usize)
        ensures
            match self {
                FileTreeNode::File(_) => r == 0,
                FileTreeNode::Directory { children, .. } => r == dir_count(children@, children@.len() as int),
            },
    {
        match self {
            FileTreeNode::File(_) => 0,
            FileTreeNode::Directory { children, .. } => {
                let mut ct: usize = 0;
                let mut i: usize = 0;
                while i < children.len()
                    invariant
                        i <= children@.len(),
                        ct == dir_count(children@, i as int),
                        ct <= i,
                    decreases children.len() - i,
                {
                    if children[i].is_dir() {
                        ct += 1;
                    }
                    i += 1;
                }
                ct
            },
        }
    }

    /// Whether this node is a file.
    pub fn is_file(&self) -> (r: bool)
        ensures
            r == (*self is File),
    {
        matches!(self, FileTreeNode::File(_))
    }

    /// Whether this node is a directory.
    pub fn is_dir(&self) -> (r: bool)
        ensures
            r == (*self is Directory),
    {
        matches!(self, FileTreeNode::Directory { .. })
    }

    /// Append the entries that a walk from this node visits to `out`.
    fn collect_files(&self, recursive: bool, out: &mut Vec<FileEntry>)
        ensures
            final(out)@.map_values(|e: FileEntry| e@) == old(out)@.map_values(|e: FileEntry| e@) + tree_files(*self, recursive),
        decreases *self,
    {
        match self {
            FileTreeNode::File(file) => {
                let ghost before = out@;
                out.push(file.clone());
                proof {
                    assert(out@.map_values(|e: FileEntry| e@) =~= before.map_values(|e: FileEntry| e@) + seq![file@]);
                }
            },
            FileTreeNode::Directory { children, .. } => {
                if recursive {
                    let ghost start = out@.map_values(|e: FileEntry| e@);
                    let mut i: usize = 0;
                    while i < children.len()
                        invariant
                            i <= children@.len(),
                            out@.map_values(|e: FileEntry| e@) == start + forest_files(children@, recursive, i as nat),
                            *self is Directory,
                            *children == self->children,
                        decreases children.len() - i,
                    {
                        proof {
                            assert(*children == self->children);
                            assert(decreases_to!(*self => self->children));
                            assert(decreases_to!(self->children => self->children@));
                            assert(decreases_to!(self->children@ => self->children@[i as int]));
                        }
                        children[i].collect_files(recursive, out);
                        proof {
                            assert(start + forest_files(children@, recursive, i as nat + 1)
                                =~= start + forest_files(children@, recursive, i as nat) + tree_files(children@[i as int], recursive));
                        }
                        i += 1;
                    }
                } else {
                    proof {
                        assert(out@.map_values(|e: FileEntry| e@) =~= out@.map_values(|e: FileEntry| e@) + Seq::<FileEntryView>::empty());
                    }
                }
            },
        }
    }

    /// The entries of the files that a walk from this node visits: the node itself if it is a
    /// file, and, if the walk is recursive, the files below a directory, in order.
    pub fn files(&self, recursive: bool) -> (r: Vec<FileEntry>)
        ensures
            r@.map_values(|e: FileEntry| e@) == tree_files(*self, recursive),
    {
        let mut out: Vec<FileEntry> = Vec::new();
        self.collect_files(recursive, &mut out);
        proof {
            assert(Seq::<FileEntry>::empty().map_values(|e: FileEntry| e@) + tree_files(*self, recursive) =~= tree_files(*self, recursive));
        }
        out
    }

    /// The names of the files that a walk from this node visits, of the requested type; a
    /// file without a long name gives its short name.
    pub fn file_names(&self, recursive: bool, name_type: FileNameType) -> (r: Vec<String>)
        ensures
            r@.map_values(|s: String| s@) == tree_files(*self, recursive).map_values(|e: FileEntryView| display_name(e, name_type)),
    {
        let files = self.files(recursive);
        let mut names: Vec<String> = Vec::new();
        let mut i: usize = 0;
        while i < files.len()
            invariant
                i <= files@.len(),
                files@.map_values(|e: FileEntry| e@) == tree_files(*self, recursive),
                names@.len() == i,
                forall|j: int| 0 <= j < i ==> (#[trigger] names@[j])@ == display_name(files@[j]@, name_type),
            decreases files.len() - i,
        {
            let f = &files[i];
            let n = match name_type {
                FileNameType::Short => f.short_name.clone(),
                FileNameType::Long => match &f.long_name {
                    Some(l) => l.clone(),
                    None => f.short_name.clone(),
                },
            };
            names.push(n);
            i += 1;
        }
        proof {
            let nv = names@.map_values(|s: String| s@);
            let tv = tree_files(*self, recursive).map_values(|e: FileEntryView| display_name(e, name_type));
            let fv = files@.map_values(|e: FileEntry| e@);
            assert forall|j: int| 0 <= j < nv.len() implies #[trigger] nv[j] == tv[j] by {
                assert(fv[j] == files@[j]@);
            }
            assert(nv =~= tv);
        }
        names
    }

    /// The paths of the files that a walk from this node visits. Paths are stored short, so
    /// both name types give the same paths.
    pub fn file_paths(&self, recursive: bool, name_type: FileNameType) -> (r: Vec<String>)
        ensures
            r@.map_values(|s: String| s@) == tree_files(*self, recursive).map_values(|e: FileEntryView| e.path),
    {
        let files = self.files(recursive);
        let mut paths: Vec<String> = Vec::new();
        let mut i: usize = 0;
        while i < files.len()
            invariant
                i <= files@.len(),
                files@.map_values(|e: FileEntry| e@) == tree_files(*self, recursive),
                paths@.len() == i,
                forall|j: int| 0 <= j < i ==> (#[trigger] paths@[j])@ == files@[j]@.path,
            decreases files.len() - i,
        {
            paths.push(files[i].path.clone());
            i += 1;
        }
        proof {
            let pv = paths@.map_values(|s: String| s@);
            let tv = tree_files(*self, recursive).map_values(|e: FileEntryView| e.path);
            let fv = files@.map_values(|e: FileEntry| e@);
            assert forall|j: int| 0 <= j < pv.len() implies #[trigger] pv[j] == tv[j] by {
                assert(fv[j] == files@[j]@);
            }
            assert(pv =~= tv);
        }
        paths
    }
}


/// The entries of the children of the directory reached from `node` along the directory names
/// of `comps`; only the node itself unless `recursive` is set.
pub open spec fn resolve_dir_spec(node: FileTreeNode, recursive: bool, comps: Seq<Seq<char>>) -> Option<Seq<FileEntryView>>
    decreases node,
{
    match node {
        FileTreeNode::File(_) => None,
        FileTreeNode::Directory { dfe, children } => if comps.len() == 0 {
            Some(children@.map_values(|c: FileTreeNode| node_entry(c)))
        } else if recursive {
            match find_dir(children@, comps[0], children@.len() as int) {
                Some(i) => if 0 <= i < children@.len() {
                    resolve_dir_spec(children@[i], true, comps.drop_first())
                } else {
                    None
                },
                None => None,
            }
        } else {
            None
        },
    }
}

/// The views of a list of path components.
pub open spec fn comp_views(c: Seq<&str>) -> Seq<Seq<char>> {
    c.map_values(|x: &str| x@)
}

/// The position of the first directory among `nodes` whose short name is `name`.
fn find_dir_exec(nodes: &Vec<FileTreeNode>, name: &str) -> (r: Option<usize>)
    ensures
        r is Some <==> find_dir(nodes@, name@, nodes@.len() as int) is Some,
        r matches Some(i) ==> find_dir(nodes@, name@, nodes@.len() as int) == Some(i as int) && i < nodes@.len(),
{
    let mut k: usize = 0;
    while k < nodes.len()
        invariant
            k <= nodes@.len(),
            find_dir(nodes@, name@, k as int) is None,
        decreases nodes.len() - k,
    {
        match &nodes[k] {
            FileTreeNode::Directory { dfe, .. } => {
                if str_eq(dfe.short_name.as_str(), name) {
                    proof {
                        lemma_find_dir_extend(nodes@, name@, k as int + 1, nodes@.len() as int);
                        assert(find_dir(nodes@, name@, k as int + 1) == Some(k as int));
                    }
                    return Some(k);
                }
            },
            _ => {},
        }
        k += 1;
    }
    None
}

/// Once found, the first matching directory stays the first one.
proof fn lemma_find_dir_extend(nodes: Seq<FileTreeNode>, name: Seq<char>, k: int, m: int)
    requires
        k <= m,
        find_dir(nodes, name, k) is Some,
    ensures
        find_dir(nodes, name, m) == find_dir(nodes, name, k),
    decreases m - k,
{
    if k < m {
        lemma_find_dir_extend(nodes, name, k, m - 1);
    }
}

impl FileTreeNode {
    /// The node reached from this node along the directory names of `components`.
    fn resolve_node(&self, components: &[&str]) -> (r: Option<&FileTreeNode>)
        ensures
            match resolve_spec(*self, comp_views(components@)) {
                Some(n) => r matches Some(x) && *x == n,
                None => r is None,
            },
        decreases *self,
    {
        match self {
            FileTreeNode::File(_) => {
                proof { assert(*self is File); assert(resolve_spec(*self, comp_views(components@)) is None); }
                None
            },
            FileTreeNode::Directory { children, .. } => {
                if components.len() == 0 {
                    proof { assert(resolve_spec(*self, comp_views(components@)) == Some(*self)); }
                    Some(self)
                } else {
                    match find_dir_exec(children, components[0]) {
                        Some(i) => {
                            proof {
                                assert(decreases_to!(*self => self->children));
                                assert(decreases_to!(self->children => self->children@));
                                assert(decreases_to!(self->children@ => self->children@[i as int]));
                                assert(comp_views(components@).drop_first() =~= comp_views(components@.subrange(1, components@.len() as int)));
                            }
                            let rest = vstd::slice::slice_subrange(components, 1, components.len());
                            proof {
                                assert(comp_views(components@)[0] == components@[0]@);
                                assert(resolve_spec(*self, comp_views(components@)) == resolve_spec(children@[i as int], comp_views(rest@)));
                            }
                            children[i].resolve_node(rest)
                        },
                        None => None,
                    }
                }
            },
        }
    }

    /// The entries of the children of the directory reached along the directory names of
    /// `components`; only this node itself unless `recursive` is set.
    fn resolve_dir(&self, recursive: bool, components: &[&str]) -> (r: Option<Vec<FileEntry>>)
        ensures
            match resolve_dir_spec(*self, recursive, comp_views(components@)) {
                Some(v) => r matches Some(x) && x@.map_values(|e: FileEntry| e@) == v,
                None => r is None,
            },
        decreases *self,
    {
        match self {
            FileTreeNode::File(_) => None,
            FileTreeNode::Directory { children, .. } => {
                if components.len() == 0 {
                    let mut out: Vec<FileEntry> = Vec::new();
                    let mut i: usize = 0;
                    while i < children.len()
                        invariant
                            i <= children@.len(),
                            out@.len() == i,
                            forall|j: int| 0 <= j < i ==> (#[trigger] out@[j])@ == node_entry(children@[j]),
                        decreases children.len() - i,
                    {
                        let e = match &children[i] {
                            FileTreeNode::File(file) => file.clone(),
                            FileTreeNode::Directory { dfe, .. } => dfe.clone(),
                        };
                        out.push(e);
                        i += 1;
                    }
                    proof {
                        let ov = out@.map_values(|e: FileEntry| e@);
                        let cv = children@.map_values(|c: FileTreeNode| node_entry(c));
                        assert forall|j: int| 0 <= j < ov.len() implies #[trigger] ov[j] == cv[j] by {}
                        assert(ov =~= cv);
                        assert(resolve_dir_spec(*self, recursive, comp_views(components@)) == Some(cv));
                    }
                    Some(out)
                } else if recursive {
                    let name = components[0];
                    proof { assert(name@ == comp_views(components@)[0]); }
                    match find_dir_exec(children, name) {
                        Some(i) => {
                            proof {
                                assert(decreases_to!(*self => self->children));
                                assert(decreases_to!(self->children => self->children@));
                                assert(decreases_to!(self->children@ => self->children@[i as int]));
                                assert(comp_views(components@).drop_first() =~= comp_views(components@.subrange(1, components@.len() as int)));
                            }
                            let rest = vstd::slice::slice_subrange(components, 1, components.len());
                            proof {
                                assert(comp_views(components@)[0] == components@[0]@);
                                assert(find_dir(children@, name@, children@.len() as int) == Some(i as int));
                                assert(resolve_dir_spec(*self, recursive, comp_views(components@)) == resolve_dir_spec(children@[i as int], true, comp_views(rest@)));
                            }
                            children[i].resolve_dir(true, rest)
                        },
                        None => None,
                    }
                } else {
                    None
                }
            },
        }
    }

    /// The entries of the children of the directory at `path`, following directory names from
    /// this node, if the path leads to a directory; `None` otherwise.
    pub fn dir(&self, path: &str) -> (r: Option<Vec<FileEntry>>)
        ensures
            match resolve_dir_spec(*self, true, path_components(path@)) {
                Some(v) => r matches Some(x) && x@.map_values(|e: FileEntry| e@) == v,
                None => r is None,
            },
    {
        let components = split_path(path);
        proof { assert(comp_views(components@) == path_components(path@)); }
        self.resolve_dir(true, components.as_slice())
    }

    /// The node at `path` below this node, following directory names, if there is one.
    pub fn node(&self, path: &str) -> (r: Option<&FileTreeNode>)
        ensures
            match resolve_spec(*self, path_components(path@)) {
                Some(n) => r matches Some(x) && *x == n,
                None => r is None,
            },
    {
        let components = split_path(path);
        proof { assert(comp_views(components@) == path_components(path@)); }
        self.resolve_node(components.as_slice())
    }
}

} // verus!
