//! The gallery of captured pictures.

use crate::json::{
    field_views, json_of, number_field, parse_json, read_number, read_text, read_true, text_field,
    true_field, JsonField, JsonView,
};
use crate::paths::{extension, file_extension, file_stem, stem};
use crate::reals::{is_real, text_writes_real};
use crate::routes::reply::Status;
use crate::solver::opt;
use crate::sorting::{is_stable_order, lemma_all_positions, positions, stable_sort, Ranked};
use crate::state::CameraConfig;
use crate::text::{
    begins, chars_of, concat2, concat3, contains, ends, find, law_parts_occur,
    law_split_at_the_first, lemma_find, lowercase_of, occurs_at, replace, replaced_text, same_text,
    string_of, text_begins, text_ends, texts, trim, trimmed_text,
};
use vstd::prelude::*;
use vstd::slice::slice_subrange;

verus! {

// ---------------------------------------------------------------------------
// Kinds of files
// ---------------------------------------------------------------------------

/// The extension of a raw picture, in lower case.
pub open spec fn is_raw_ext(ext: Seq<char>) -> bool {
    ext == "cr3"@ || ext == "cr2"@ || ext == "nef"@ || ext == "arw"@ || ext == "dng"@ || ext
        == "raf"@ || ext == "orf"@
}

/// The extension of a picture, in lower case.
pub open spec fn is_image_ext(ext: Seq<char>) -> bool {
    is_raw_ext(ext) || ext == "fits"@ || ext == "fit"@ || ext == "jpg"@ || ext == "jpeg"@ || ext
        == "png"@ || ext == "tiff"@ || ext == "tif"@
}

/// Whether this is the extension of a raw picture, in lower case.
pub fn raw_ext(ext: &str) -> (r: bool)
    ensures
        r == is_raw_ext(ext@),
{
    same_text(ext, "cr3") || same_text(ext, "cr2") || same_text(ext, "nef") || same_text(ext, "arw")
        || same_text(ext, "dng") || same_text(ext, "raf") || same_text(ext, "orf")
}

/// Whether this is the extension of a picture, in lower case.
pub fn is_image(ext: &str) -> (r: bool)
    ensures
        r == is_image_ext(ext@),
{
    raw_ext(ext) || same_text(ext, "fits") || same_text(ext, "fit") || same_text(ext, "jpg")
        || same_text(ext, "jpeg") || same_text(ext, "png") || same_text(ext, "tiff") || same_text(
        ext,
        "tif",
    )
}

/// The word for the kind of a listed file.
pub open spec fn kind_of(ext: Seq<char>) -> Seq<char> {
    if ext == "fits"@ || ext == "fit"@ {
        "fits"@
    } else if ext == "tiff"@ || ext == "tif"@ {
        "tiff"@
    } else {
        "jpeg"@
    }
}

fn kind_name(ext: &str) -> (r: String)
    ensures
        r@ == kind_of(ext@),
{
    if same_text(ext, "fits") || same_text(ext, "fit") {
        "fits".to_owned()
    } else if same_text(ext, "tiff") || same_text(ext, "tif") {
        "tiff".to_owned()
    } else {
        "jpeg".to_owned()
    }
}

// ---------------------------------------------------------------------------
// Listing
// ---------------------------------------------------------------------------

/// A picture of the gallery.
#[derive(Debug)]
pub struct GalleryFile {
    pub name: String,
    /// The path below the root of the gallery.
    pub rel_path: String,
    pub size_bytes: u64,
    /// Milliseconds since 1970.
    pub modified_ms: u64,
    /// "fits", "tiff" or "jpeg".
    pub kind: String,
    pub fits_exists: bool,
}

/// A folder of the gallery.
#[derive(Debug)]
pub struct GalleryFolder {
    pub name: String,
    /// The path below the root of the gallery.
    pub rel_path: String,
    pub files: Vec<GalleryFile>,
    pub folders: Vec<GalleryFolder>,
}

/// What stands in a directory.
#[derive(Debug)]
pub struct Node {
    pub name: String,
    pub kind: NodeKind,
}

/// The kind of what stands in a directory.
#[derive(Debug)]
pub enum NodeKind {
    Folder(Vec<Node>),
    File { size_bytes: u64, modified_ms: u64 },
    /// Neither a directory nor a file.
    Other,
}

/// The texts of a picture.
pub struct FileView {
    pub name: Seq<char>,
    pub rel_path: Seq<char>,
    pub size_bytes: u64,
    pub modified_ms: u64,
    pub kind: Seq<char>,
    pub fits_exists: bool,
}

impl View for GalleryFile {
    type V = FileView;

    open spec fn view(&self) -> FileView {
        FileView {
            name: self.name@,
            rel_path: self.rel_path@,
            size_bytes: self.size_bytes,
            modified_ms: self.modified_ms,
            kind: self.kind@,
            fits_exists: self.fits_exists,
        }
    }
}

/// `a` stands before `b` in the dictionary, or they are equal.
pub open spec fn in_dictionary(a: Seq<char>, b: Seq<char>) -> bool
    decreases a.len(),
{
    a.len() == 0 || (b.len() > 0 && ((a[0] as int) < (b[0] as int) || (a[0] == b[0]
        && in_dictionary(a.skip(1), b.skip(1)))))
}

/// `perm` lists the positions of the nodes in the order of their names.
pub open spec fn is_name_order(nodes: Seq<Node>, perm: Seq<int>) -> bool {
    &&& perm.len() == nodes.len()
    &&& forall|i: int| 0 <= i < perm.len() ==> 0 <= #[trigger] perm[i] < nodes.len()
    &&& forall|i: int, j: int|
        0 <= i < j < perm.len() ==> {
            &&& in_dictionary(nodes[#[trigger] perm[i]].name@, nodes[#[trigger] perm[j]].name@)
            &&& in_dictionary(nodes[perm[j]].name@, nodes[perm[i]].name@) ==> perm[i] < perm[j]
            &&& perm[i] != perm[j]
        }
}

/// The path of an entry of a folder.
pub open spec fn below(folder: Seq<char>, name: Seq<char>) -> Seq<char> {
    if folder.len() == 0 {
        name
    } else {
        folder + "/"@ + name
    }
}

/// The path as clients see it.
pub open spec fn shown_path(path: Seq<char>) -> Seq<char> {
    replace(path, "\\"@, "/"@)
}

/// The node is hidden.
pub open spec fn is_hidden(node: Node) -> bool {
    begins(node.name@, "."@)
}

/// The node is a picture that is listed.
pub open spec fn is_listed_file(node: Node) -> bool {
    let ext = lowercase_of(extension(node.name@));
    node.kind is File && !is_hidden(node) && is_image_ext(ext) && !is_raw_ext(ext)
}

/// The node is a folder that is listed.
pub open spec fn is_listed_folder(node: Node) -> bool {
    node.kind is Folder && !is_hidden(node)
}

/// What is listed of a picture.
pub open spec fn listed_file(folder: Seq<char>, node: Node) -> FileView {
    FileView {
        name: node.name@,
        rel_path: shown_path(below(folder, node.name@)),
        size_bytes: node.kind->size_bytes,
        modified_ms: node.kind->modified_ms,
        kind: kind_of(lowercase_of(extension(node.name@))),
        fits_exists: false,
    }
}

/// The listed pictures among the first `n` nodes of the order.
pub open spec fn listed_files(
    folder: Seq<char>,
    nodes: Seq<Node>,
    perm: Seq<int>,
    n: nat,
) -> Seq<FileView>
    decreases n,
{
    if n == 0 {
        Seq::empty()
    } else {
        let before = listed_files(folder, nodes, perm, (n - 1) as nat);
        let node = nodes[perm[n - 1]];
        if is_listed_file(node) {
            before.push(listed_file(folder, node))
        } else {
            before
        }
    }
}

/// The positions of the listed folders among the first `n` nodes of the order.
pub open spec fn listed_folders(nodes: Seq<Node>, perm: Seq<int>, n: nat) -> Seq<int>
    decreases n,
{
    if n == 0 {
        Seq::empty()
    } else {
        let before = listed_folders(nodes, perm, (n - 1) as nat);
        if is_listed_folder(nodes[perm[n - 1]]) {
            before.push(perm[n - 1])
        } else {
            before
        }
    }
}

/// The pictures with their texts.
pub open spec fn file_views(files: Seq<GalleryFile>) -> Seq<FileView> {
    Seq::new(files.len(), |i: int| files[i]@)
}

/// `out` lists the folder at `path` that holds the nodes.
pub open spec fn is_listing(
    name: Seq<char>,
    path: Seq<char>,
    nodes: Seq<Node>,
    out: GalleryFolder,
) -> bool
    decreases nodes,
{
    &&& out.name@ == name
    &&& out.rel_path@ == shown_path(path)
    &&& exists|perm: Seq<int>|
        {
            let folders = listed_folders(nodes, perm, perm.len());
            &&& #[trigger] is_name_order(nodes, perm)
            &&& file_views(out.files@) == listed_files(path, nodes, perm, perm.len())
            &&& out.folders@.len() == folders.len()
            &&& forall|k: int|
                0 <= k < folders.len() ==> 0 <= #[trigger] folders[k] < nodes.len()
                    && is_node_listing(nodes[folders[k]], path, out.folders@[k])
        }
}

/// `out` lists the node, which is a folder in the folder at `path`.
pub open spec fn is_node_listing(node: Node, path: Seq<char>, out: GalleryFolder) -> bool
    decreases node,
{
    match node.kind {
        NodeKind::Folder(inner) => is_listing(node.name@, below(path, node.name@), inner@, out),
        _ => false,
    }
}

/// `out` lists the folders at the positions.
spec fn are_listings(
    path: Seq<char>,
    nodes: Seq<Node>,
    positions: Seq<int>,
    out: Seq<GalleryFolder>,
) -> bool {
    &&& out.len() == positions.len()
    &&& forall|k: int|
        0 <= k < positions.len() ==> #[trigger] lists_at(path, nodes, positions[k], out[k])
}

/// `out` lists the folder at position `i`.
spec fn lists_at(path: Seq<char>, nodes: Seq<Node>, i: int, out: GalleryFolder) -> bool {
    0 <= i < nodes.len() && is_node_listing(nodes[i], path, out)
}

proof fn lemma_one_more_listing(
    path: Seq<char>,
    nodes: Seq<Node>,
    positions: Seq<int>,
    out: Seq<GalleryFolder>,
    i: int,
    listing: GalleryFolder,
)
    requires
        are_listings(path, nodes, positions, out),
        0 <= i < nodes.len(),
        is_node_listing(nodes[i], path, listing),
    ensures
        are_listings(path, nodes, positions.push(i), out.push(listing)),
{
    let p = positions.push(i);
    let o = out.push(listing);
    assert forall|k: int| 0 <= k < p.len() implies #[trigger] lists_at(path, nodes, p[k], o[k]) by {
        if k < positions.len() {
            assert(lists_at(path, nodes, positions[k], out[k]));
        } else {
            assert(lists_at(path, nodes, i, listing));
        }
    }
}

/// A name and its position.
struct NameKey {
    name: Vec<char>,
    index: usize,
}

proof fn lemma_dictionary_total(a: Seq<char>, b: Seq<char>)
    ensures
        in_dictionary(a, b) || in_dictionary(b, a),
    decreases a.len(),
{
    if a.len() > 0 && b.len() > 0 && a[0] == b[0] {
        lemma_dictionary_total(a.skip(1), b.skip(1));
    }
}

proof fn lemma_dictionary_transitive(a: Seq<char>, b: Seq<char>, c: Seq<char>)
    requires
        in_dictionary(a, b),
        in_dictionary(b, c),
    ensures
        in_dictionary(a, c),
    decreases a.len(),
{
    if a.len() > 0 && a[0] == b[0] && b[0] == c[0] {
        lemma_dictionary_transitive(a.skip(1), b.skip(1), c.skip(1));
    }
}

impl Ranked for NameKey {
    closed spec fn le(&self, other: &Self) -> bool {
        in_dictionary(self.name@, other.name@)
    }

    proof fn total(a: &Self, b: &Self) {
        lemma_dictionary_total(a.name@, b.name@);
    }

    proof fn transitive(a: &Self, b: &Self, c: &Self) {
        lemma_dictionary_transitive(a.name@, b.name@, c.name@);
    }

    fn not_above(&self, other: &Self) -> (r: bool) {
        let a = &self.name;
        let b = &other.name;
        let mut i: usize = 0;
        assert(a@.skip(0) =~= a@);
        assert(b@.skip(0) =~= b@);
        while i < a.len() && i < b.len()
            invariant
                i <= a@.len(),
                i <= b@.len(),
                a@ == self.name@,
                b@ == other.name@,
                in_dictionary(a@, b@) == in_dictionary(a@.skip(i as int), b@.skip(i as int)),
            decreases a@.len() - i,
        {
            assert(a@.skip(i as int)[0] == a@[i as int]);
            assert(b@.skip(i as int)[0] == b@[i as int]);
            assert(a@.skip(i as int).skip(1) =~= a@.skip(i + 1));
            assert(b@.skip(i as int).skip(1) =~= b@.skip(i + 1));
            if a[i] != b[i] {
                return a[i] < b[i];
            }
            i = i + 1;
        }
        i == a.len()
    }
}

/// The positions of the nodes in the order of their names.
fn name_order(nodes: &Vec<Node>) -> (r: Vec<usize>)
    ensures
        is_name_order(nodes@, positions(r@)),
{
    let n = nodes.len();
    let mut keys: Vec<NameKey> = Vec::new();
    for i in 0..n
        invariant
            n == nodes@.len(),
            keys@.len() == i,
            forall|k: int|
                0 <= k < i ==> (#[trigger] keys@[k]).name@ == nodes@[k].name@ && keys@[k].index
                    == k,
    {
        keys.push(NameKey { name: chars_of(nodes[i].name.as_str()), index: i });
    }
    let ghost all = keys@;
    let sorted = stable_sort(keys);
    let ghost perm = choose|perm: Seq<int>|
        {
            &&& #[trigger] is_stable_order(all, perm)
            &&& sorted@ == perm.map_values(|i: int| all[i])
        };
    assert(is_stable_order(all, perm));
    let mut out: Vec<usize> = Vec::new();
    for i in 0..sorted.len()
        invariant
            out@.len() == i,
            forall|k: int| 0 <= k < i ==> #[trigger] out@[k] == sorted@[k].index,
    {
        out.push(sorted[i].index);
    }
    proof {
        let order = positions(out@);
        assert(order =~= perm) by {
            assert forall|k: int| 0 <= k < order.len() implies order[k] == perm[k] by {
                assert(sorted@[k] == all[perm[k]]);
            }
        }
        assert forall|i: int, j: int| 0 <= i < j < perm.len() implies {
            &&& in_dictionary(nodes@[#[trigger] perm[i]].name@, nodes@[#[trigger] perm[j]].name@)
            &&& in_dictionary(nodes@[perm[j]].name@, nodes@[perm[i]].name@) ==> perm[i] < perm[j]
            &&& perm[i] != perm[j]
        } by {
            assert(all[perm[i]].le(&all[perm[j]]));
        }
    }
    out
}

fn join(folder: &str, name: &str) -> (r: String)
    ensures
        r@ == below(folder@, name@),
{
    if folder.is_empty() {
        name.to_owned()
    } else {
        concat3(folder, "/", name)
    }
}

fn show(path: &str) -> (r: String)
    ensures
        r@ == shown_path(path@),
{
    proof {
        reveal_strlit("\\");
    }
    replaced_text(path, "\\", "/")
}

fn list_file(folder: &str, node: &Node) -> (r: Option<GalleryFile>)
    ensures
        match r {
            Some(f) => is_listed_file(*node) && f@ == listed_file(folder@, *node),
            None => !is_listed_file(*node),
        },
{
    match &node.kind {
        NodeKind::File { size_bytes, modified_ms } => {
            if text_begins(node.name.as_str(), ".") {
                return None;
            }
            let ext = file_extension(node.name.as_str()).as_str().to_lowercase();
            if !is_image(ext.as_str()) || raw_ext(ext.as_str()) {
                return None;
            }
            let path = join(folder, node.name.as_str());
            Some(
                GalleryFile {
                    name: node.name.clone(),
                    rel_path: show(path.as_str()),
                    size_bytes: *size_bytes,
                    modified_ms: *modified_ms,
                    kind: kind_name(ext.as_str()),
                    fits_exists: false,
                },
            )
        },
        _ => None,
    }
}

/// Lists the folder at `path` that holds the nodes. Hidden entries, raw
/// pictures and files that are no pictures are left out.
pub fn build_folder(name: &str, path: &str, nodes: &Vec<Node>) -> (out: GalleryFolder)
    ensures
        is_listing(name@, path@, nodes@, out),
    decreases nodes,
{
    let order = name_order(nodes);
    let ghost perm = positions(order@);
    let mut files: Vec<GalleryFile> = Vec::new();
    let mut folders: Vec<GalleryFolder> = Vec::new();
    assert(file_views(files@) =~= listed_files(path@, nodes@, perm, 0));
    for k in 0..order.len()
        invariant
            is_name_order(nodes@, perm),
            perm == positions(order@),
            file_views(files@) == listed_files(path@, nodes@, perm, k as nat),
            are_listings(path@, nodes@, listed_folders(nodes@, perm, k as nat), folders@),
    {
        assert(perm[k as int] == order@[k as int]);
        let node = &nodes[order[k]];
        let ghost before = listed_folders(nodes@, perm, k as nat);
        let ghost now = listed_folders(nodes@, perm, (k + 1) as nat);
        match list_file(path, node) {
            Some(f) => {
                let ghost was = file_views(files@);
                let ghost view = f@;
                files.push(f);
                assert(file_views(files@) =~= was.push(view));
                assert(now == before);
            },
            None => {
                match &node.kind {
                    NodeKind::Folder(inner) => {
                        if !text_begins(node.name.as_str(), ".") {
                            let inner_path = join(path, node.name.as_str());
                            assert(decreases_to!(nodes => inner)) by {
                                assert(decreases_to!(nodes => nodes@));
                                assert(decreases_to!(nodes@ => nodes@[order@[k as int] as int]));
                                assert(decreases_to!(node => node.kind));
                                assert(decreases_to!(node.kind => inner));
                            }
                            let listing = build_folder(
                                node.name.as_str(),
                                inner_path.as_str(),
                                inner,
                            );
                            proof {
                                let i = order@[k as int] as int;
                                assert(is_node_listing(nodes@[i], path@, listing));
                                lemma_one_more_listing(
                                    path@,
                                    nodes@,
                                    before,
                                    folders@,
                                    i,
                                    listing,
                                );
                            }
                            folders.push(listing);
                        }
                    },
                    _ => {},
                }
            },
        }
    }
    let out = GalleryFolder { name: name.to_owned(), rel_path: show(path), files, folders };
    proof {
        let positions = listed_folders(nodes@, perm, perm.len());
        assert forall|k: int| 0 <= k < positions.len() implies 0
            <= #[trigger] positions[k] < nodes@.len() && is_node_listing(
            nodes@[positions[k]],
            path@,
            out.folders@[k],
        ) by {
            assert(lists_at(path@, nodes@, positions[k], out.folders@[k]));
        }
        assert(is_name_order(nodes@, perm));
    }
    out
}

/// A picture that is listed is neither hidden nor raw, and has the extension of
/// a picture.
pub proof fn law_listed_files(
    folder: Seq<char>,
    nodes: Seq<Node>,
    perm: Seq<int>,
    n: nat,
    k: int,
)
    requires
        0 <= k < listed_files(folder, nodes, perm, n).len(),
    ensures
        ({
            let f = listed_files(folder, nodes, perm, n)[k];
            let ext = lowercase_of(extension(f.name));
            &&& !begins(f.name, "."@)
            &&& is_image_ext(ext)
            &&& !is_raw_ext(ext)
            &&& f.rel_path == shown_path(below(folder, f.name))
        }),
    decreases n,
{
    if n > 0 && k < listed_files(folder, nodes, perm, (n - 1) as nat).len() {
        law_listed_files(folder, nodes, perm, (n - 1) as nat, k);
    }
}

proof fn lemma_listed_upto(
    folder: Seq<char>,
    nodes: Seq<Node>,
    perm: Seq<int>,
    n: nat,
    j: int,
)
    requires
        0 <= j < n <= perm.len(),
    ensures
        is_listed_file(nodes[perm[j]]) ==> listed_files(folder, nodes, perm, n).contains(
            listed_file(folder, nodes[perm[j]]),
        ),
        is_listed_folder(nodes[perm[j]]) ==> listed_folders(nodes, perm, n).contains(perm[j]),
    decreases n,
{
    let files = listed_files(folder, nodes, perm, n);
    let folders = listed_folders(nodes, perm, n);
    if j < n - 1 {
        lemma_listed_upto(folder, nodes, perm, (n - 1) as nat, j);
        let m = (n - 1) as nat;
        let before_files = listed_files(folder, nodes, perm, m);
        let before_folders = listed_folders(nodes, perm, m);
        if is_listed_file(nodes[perm[j]]) {
            let f = listed_file(folder, nodes[perm[j]]);
            let k = choose|k: int| 0 <= k < before_files.len() && before_files[k] == f;
            assert(files[k] == f);
        }
        if is_listed_folder(nodes[perm[j]]) {
            let k = choose|k: int| 0 <= k < before_folders.len() && before_folders[k] == perm[j];
            assert(folders[k] == perm[j]);
        }
    } else {
        if is_listed_file(nodes[perm[j]]) {
            assert(files.last() == listed_file(folder, nodes[perm[j]]));
        }
        if is_listed_folder(nodes[perm[j]]) {
            assert(folders.last() == perm[j]);
        }
    }
}

/// Every picture of a folder that is neither hidden nor raw is listed, and so is
/// every folder that is not hidden.
pub proof fn law_everything_is_listed(
    folder: Seq<char>,
    nodes: Seq<Node>,
    perm: Seq<int>,
    i: int,
)
    requires
        is_name_order(nodes, perm),
        0 <= i < nodes.len(),
    ensures
        is_listed_file(nodes[i]) ==> listed_files(folder, nodes, perm, perm.len()).contains(
            listed_file(folder, nodes[i]),
        ),
        is_listed_folder(nodes[i]) ==> listed_folders(nodes, perm, perm.len()).contains(i),
{
    lemma_all_positions(perm, nodes.len(), i);
    let j = choose|j: int| 0 <= j < perm.len() && perm[j] == i;
    lemma_listed_upto(folder, nodes, perm, perm.len(), j);
}

// ---------------------------------------------------------------------------
// Paths
// ---------------------------------------------------------------------------

/// A request that names a file.
#[derive(Debug)]
pub struct PathQuery {
    pub path: String,
}

/// A request for a stretched picture. The percentiles are text.
#[derive(Debug)]
pub struct PreviewQuery {
    pub path: String,
    pub lo: Option<String>,
    pub hi: Option<String>,
}

/// A request to convert a picture.
#[derive(Debug)]
pub struct ConvertPayload {
    pub path: String,
}

/// The answer to a request to convert a picture.
#[derive(Debug)]
pub struct ConvertResponse {
    pub fits_path: String,
    pub message: String,
}

/// A request to delete a picture.
#[derive(Debug)]
pub struct DeletePayload {
    pub path: String,
}

/// A request to solve a picture.
#[derive(Debug)]
pub struct PlateSolvePayload {
    pub path: String,
}

/// The directory of the captured pictures.
pub open spec fn captures_root() -> Seq<char> {
    "imgs/astro_captures"@
}

/// The directory of the converted pictures.
pub open spec fn fits_dir() -> Seq<char> {
    "imgs/fits"@
}

/// The text without the slashes that it begins with.
pub open spec fn unrooted(s: Seq<char>) -> Seq<char>
    decreases s.len(),
{
    if s.len() > 0 && s[0] == '/' {
        unrooted(s.skip(1))
    } else {
        s
    }
}

/// The path without anything that leads out of a directory: no double dot is
/// left in it, and it does not begin at the root.
pub open spec fn sanitised(path: Seq<char>) -> Seq<char> {
    unrooted(replace(unrooted(path), ".."@, ""@))
}

fn strip_slashes(s: &str) -> (r: String)
    ensures
        r@ == unrooted(s@),
{
    let c = chars_of(s);
    let n = c.len();
    let mut i: usize = 0;
    assert(c@.skip(0) =~= c@);
    while i < n && c[i] == '/'
        invariant
            i <= n == c@.len(),
            unrooted(c@) == unrooted(c@.skip(i as int)),
        decreases n - i,
    {
        assert(c@.skip(i as int).skip(1) =~= c@.skip(i + 1));
        i = i + 1;
    }
    let rest = slice_subrange(c.as_slice(), i, n);
    assert(rest@ =~= c@.skip(i as int));
    string_of(rest)
}

/// The path of a request, made safe to look up below a directory.
pub fn safe_path(path: &str) -> (r: String)
    ensures
        r@ == sanitised(path@),
{
    proof {
        reveal_strlit("..");
    }
    let bare = strip_slashes(path);
    let clean = replaced_text(bare.as_str(), "..", "");
    strip_slashes(clean.as_str())
}

/// Removing all double dots leaves none.
proof fn lemma_no_dots_left(s: Seq<char>)
    ensures
        !contains(replace(s, ".."@, ""@), ".."@),
    decreases s.len(),
{
    let pat = ".."@;
    reveal_strlit("..");
    reveal_strlit("");
    lemma_find(s, pat);
    match find(s, pat) {
        Some(k) => {
            let head = s.take(k);
            let rest = s.skip(k + 2);
            lemma_no_dots_left(rest);
            let tail = replace(rest, pat, ""@);
            let all = replace(s, pat, ""@);
            assert(all =~= head + tail);
            assert forall|i: int| !occurs_at(all, pat, i) by {
                if occurs_at(all, pat, i) {
                    assert(all.subrange(i, i + 2)[0] == '.' && all.subrange(i, i + 2)[1] == '.');
                    assert(all[i] == '.' && all[i + 1] == '.');
                    if i + 1 < k {
                        assert(s.subrange(i, i + 2) =~= pat);
                        assert(occurs_at(s, pat, i));
                    } else if i + 1 == k {
                        assert(s[i] == '.');
                        assert(s.subrange(k, k + 2)[0] == s[k]);
                        assert(s.subrange(i, i + 2) =~= pat);
                        assert(occurs_at(s, pat, i));
                    } else {
                        assert(tail.subrange(i - k, i - k + 2) =~= pat);
                        assert(occurs_at(tail, pat, i - k));
                    }
                }
            }
        },
        None => {},
    }
}

proof fn lemma_unrooted(s: Seq<char>)
    ensures
        unrooted(s).len() == 0 || unrooted(s)[0] != '/',
        exists|k: int| 0 <= k <= s.len() && unrooted(s) == #[trigger] s.skip(k),
    decreases s.len(),
{
    if s.len() > 0 && s[0] == '/' {
        lemma_unrooted(s.skip(1));
        let k = choose|k: int| 0 <= k <= s.skip(1).len() && unrooted(s.skip(1))
            == #[trigger] s.skip(1).skip(k);
        assert(s.skip(1).skip(k) =~= s.skip(k + 1));
    } else {
        assert(s.skip(0) =~= s);
    }
}

/// A path that was made safe holds no double dot and does not begin with a
/// slash, so it stays within the directory that it is looked up in.
pub proof fn law_safe_path_stays_inside(path: Seq<char>)
    ensures
        !contains(sanitised(path), ".."@),
        sanitised(path).len() == 0 || sanitised(path)[0] != '/',
{
    let clean = replace(unrooted(path), ".."@, ""@);
    lemma_no_dots_left(unrooted(path));
    lemma_unrooted(clean);
    let k = choose|k: int| 0 <= k <= clean.len() && unrooted(clean) == #[trigger] clean.skip(k);
    assert forall|i: int| !occurs_at(sanitised(path), ".."@, i) by {
        if occurs_at(sanitised(path), ".."@, i) {
            reveal_strlit("..");
            assert(clean.subrange(k + i, k + i + 2) =~= sanitised(path).subrange(i, i + 2));
            assert(occurs_at(clean, ".."@, k + i));
        }
    }
}

/// The path of a file below a directory.
pub open spec fn under(dir: Seq<char>, rel: Seq<char>) -> Seq<char> {
    dir + "/"@ + rel
}

/// The path of a captured picture.
pub fn capture_path(rel: &str) -> (r: String)
    ensures
        r@ == under(captures_root(), rel@),
{
    concat3("imgs/astro_captures", "/", rel)
}

/// The path of a converted picture.
pub fn fits_path(rel: &str) -> (r: String)
    ensures
        r@ == under(fits_dir(), rel@),
{
    concat3("imgs/fits", "/", rel)
}

/// The text with each slash and backslash replaced by an underscore.
pub open spec fn flattened(s: Seq<char>) -> Seq<char> {
    s.map_values(
        |c: char|
            if c == '/' || c == '\\' {
                '_'
            } else {
                c
            },
    )
}

/// The path of the cached thumbnail of a picture.
pub open spec fn thumbnail_path(rel: Seq<char>) -> Seq<char> {
    "imgs/.thumbnails/"@ + flattened(rel) + ".jpg"@
}

/// The path of the cached thumbnail of a picture.
pub fn thumbnail_cache(rel: &str) -> (r: String)
    ensures
        r@ == thumbnail_path(rel@),
{
    let c = chars_of(rel);
    let mut flat: Vec<char> = Vec::new();
    for i in 0..c.len()
        invariant
            flat@.len() == i,
            forall|k: int|
                0 <= k < i ==> #[trigger] flat@[k] == if c@[k] == '/' || c@[k] == '\\' {
                    '_'
                } else {
                    c@[k]
                },
    {
        if c[i] == '/' || c[i] == '\\' {
            flat.push('_');
        } else {
            flat.push(c[i]);
        }
    }
    assert(flat@ =~= flattened(rel@));
    concat3("imgs/.thumbnails/", string_of(flat.as_slice()).as_str(), ".jpg")
}

/// The thumbnails of pictures with different flattened paths have different
/// paths.
pub proof fn law_thumbnail_names_path(a: Seq<char>, b: Seq<char>)
    requires
        thumbnail_path(a) == thumbnail_path(b),
    ensures
        flattened(a) == flattened(b),
{
    let head = "imgs/.thumbnails/"@;
    let tail = ".jpg"@;
    let x = thumbnail_path(a);
    assert(flattened(a) =~= x.subrange(head.len() as int, x.len() - tail.len()));
    assert(flattened(b) =~= x.subrange(head.len() as int, x.len() - tail.len()));
}

// ---------------------------------------------------------------------------
// Downloads and conversions
// ---------------------------------------------------------------------------

/// The name is that of a FITS file.
pub open spec fn is_fits_name(name: Seq<char>) -> bool {
    ends(name, ".fits"@) || ends(name, ".fit"@)
}

/// The path of a file to download: FITS files have a directory of their own.
pub open spec fn download_place(rel: Seq<char>) -> Seq<char> {
    if is_fits_name(rel) {
        under(fits_dir(), rel)
    } else {
        under(captures_root(), rel)
    }
}

/// The path of a file to download.
pub fn download_path(rel: &str) -> (r: String)
    ensures
        r@ == download_place(rel@),
{
    if text_ends(rel, ".fits") || text_ends(rel, ".fit") {
        fits_path(rel)
    } else {
        capture_path(rel)
    }
}

/// The content type and the header that names the file of a download.
pub fn download_headers(name: &str) -> (r: (String, String))
    ensures
        r.0@ == if is_fits_name(name@) {
            "application/fits"@
        } else {
            "application/octet-stream"@
        },
        r.1@ == "attachment; filename=\""@ + name@ + "\""@,
{
    let kind = if text_ends(name, ".fits") || text_ends(name, ".fit") {
        "application/fits".to_owned()
    } else {
        "application/octet-stream".to_owned()
    };
    (kind, concat3("attachment; filename=\"", name, "\""))
}

/// The name of the converted picture.
pub open spec fn converted_name(file: Seq<char>) -> Seq<char> {
    stem(file) + ".fits"@
}

/// The name of the converted picture, from the name of the picture.
pub fn fits_name(file: &str) -> (r: String)
    ensures
        r@ == converted_name(file@),
{
    concat2(file_stem(file).as_str(), ".fits")
}

/// What becomes of a request to convert.
#[derive(Debug)]
pub enum ConvertNext {
    /// Answer with a failure.
    Refuse { status: Status, body: String },
    /// The result is there already.
    Answer { response: ConvertResponse },
    /// Run the converter.
    Convert,
}

/// What becomes of a request to convert the file of this name: the source has
/// to be there, then the directory of the results, and a result that is there
/// is not made again.
pub fn convert_next(
    file: &str,
    source_exists: bool,
    dir_error: Option<&str>,
    result_exists: bool,
) -> (r: ConvertNext)
    ensures
        match r {
            ConvertNext::Refuse { status, body } => {
                ||| {
                    &&& !source_exists
                    &&& status == Status::NotFound
                    &&& body@ == "Source file not found"@
                }
                ||| {
                    &&& source_exists && dir_error is Some
                    &&& status == Status::ServerError
                    &&& body@ == "Cannot create fits dir: "@ + dir_error->0@
                }
            },
            ConvertNext::Answer { response } => {
                &&& source_exists && dir_error is None && result_exists
                &&& response.fits_path@ == converted_name(file@)
                &&& response.message@ == "Already converted"@
            },
            ConvertNext::Convert => source_exists && dir_error is None && !result_exists,
        },
{
    if !source_exists {
        return ConvertNext::Refuse {
            status: Status::NotFound,
            body: "Source file not found".to_owned(),
        };
    }
    match dir_error {
        Some(e) => {
            return ConvertNext::Refuse {
                status: Status::ServerError,
                body: concat2("Cannot create fits dir: ", e),
            };
        },
        None => {},
    }
    if result_exists {
        ConvertNext::Answer {
            response: ConvertResponse {
                fits_path: fits_name(file),
                message: "Already converted".to_owned(),
            },
        }
    } else {
        ConvertNext::Convert
    }
}

/// The answer when the converter has run.
pub fn converted(file: &str, error: Option<&str>) -> (r: Result<ConvertResponse, String>)
    ensures
        match r {
            Ok(response) => {
                &&& error is None
                &&& response.fits_path@ == converted_name(file@)
                &&& response.message@ == "Converted successfully"@
            },
            Err(e) => error is Some && e@ == "Conversion failed: "@ + error->0@,
        },
{
    match error {
        None => Ok(
            ConvertResponse {
                fits_path: fits_name(file),
                message: "Converted successfully".to_owned(),
            },
        ),
        Some(e) => Err(concat2("Conversion failed: ", e)),
    }
}

/// The answer to a request to delete.
pub open spec fn deleted(exists: bool, error: Option<Seq<char>>) -> (Status, Seq<char>) {
    if !exists {
        (Status::NotFound, "File not found"@)
    } else {
        match error {
            Some(e) => (Status::ServerError, e),
            None => (Status::Success, "Deleted"@),
        }
    }
}

/// The answer to a request to delete, given that the file is there and what
/// came of deleting it.
pub fn delete_reply(exists: bool, error: Option<&str>) -> (r: (Status, String))
    ensures
        (r.0, r.1@) == deleted(
            exists,
            match error {
                Some(e) => Some(e@),
                None => None,
            },
        ),
{
    if !exists {
        return (Status::NotFound, "File not found".to_owned());
    }
    match error {
        Some(e) => (Status::ServerError, e.to_owned()),
        None => (Status::Success, "Deleted".to_owned()),
    }
}

/// The answer to a request for a file that is not there: for a header, or for a
/// thumbnail, a picture or the file itself.
pub fn missing_reply(is_header: bool) -> (r: (Status, String))
    ensures
        r.0 == Status::NotFound,
        r.1@ == if is_header {
            "FITS file not found"@
        } else {
            "File not found"@
        },
{
    if is_header {
        (Status::NotFound, "FITS file not found".to_owned())
    } else {
        (Status::NotFound, "File not found".to_owned())
    }
}

/// What the script for pictures is to do.
#[derive(Debug)]
pub enum PictureTask {
    /// Write a thumbnail to a file.
    Thumbnail { source: String, target: String },
    /// Write a stretched picture to a file.
    Preview { source: String, target: String, lo: String, hi: String },
    /// Convert a picture.
    Convert { source: String, target: String },
    /// Print the header of a FITS file.
    FitsHeader { source: String },
    /// Print the header of a TIFF file.
    TiffHeader { source: String },
    /// Solve a picture.
    Solve { source: String, ra: String, dec: String, scale_lo: String, scale_hi: String },
}

impl PictureTask {
    /// The arguments of the script.
    pub open spec fn words(self) -> Seq<Seq<char>> {
        match self {
            PictureTask::Thumbnail { source, target } => seq!["thumbnail"@, source@, target@],
            PictureTask::Preview { source, target, lo, hi } => seq![
                "preview"@,
                source@,
                target@,
                lo@,
                hi@,
            ],
            PictureTask::Convert { source, target } => seq!["fits"@, source@, target@],
            PictureTask::FitsHeader { source } => seq!["fitshdr"@, source@],
            PictureTask::TiffHeader { source } => seq!["tiffhdr"@, source@],
            PictureTask::Solve { source, ra, dec, scale_lo, scale_hi } => seq![
                "solve"@,
                source@,
                ra@,
                dec@,
                scale_lo@,
                scale_hi@,
            ],
        }
    }

    /// The arguments of the script.
    pub fn arguments(&self) -> (r: Vec<String>)
        ensures
            texts(r@) == self.words(),
    {
        let mut a: Vec<String> = Vec::new();
        match self {
            PictureTask::Thumbnail { source, target } => {
                a.push("thumbnail".to_owned());
                a.push(source.clone());
                a.push(target.clone());
            },
            PictureTask::Preview { source, target, lo, hi } => {
                a.push("preview".to_owned());
                a.push(source.clone());
                a.push(target.clone());
                a.push(lo.clone());
                a.push(hi.clone());
            },
            PictureTask::Convert { source, target } => {
                a.push("fits".to_owned());
                a.push(source.clone());
                a.push(target.clone());
            },
            PictureTask::FitsHeader { source } => {
                a.push("fitshdr".to_owned());
                a.push(source.clone());
            },
            PictureTask::TiffHeader { source } => {
                a.push("tiffhdr".to_owned());
                a.push(source.clone());
            },
            PictureTask::Solve { source, ra, dec, scale_lo, scale_hi } => {
                a.push("solve".to_owned());
                a.push(source.clone());
                a.push(ra.clone());
                a.push(dec.clone());
                a.push(scale_lo.clone());
                a.push(scale_hi.clone());
            },
        }
        assert(texts(a@) =~= self.words());
        a
    }

    /// The body of the answer when the script fails here.
    pub fn failure(&self, error: &str) -> (r: String)
        ensures
            r@ == match *self {
                PictureTask::Thumbnail { .. } => "Thumbnail error: "@ + error@,
                PictureTask::Preview { .. } => "Preview error: "@ + error@,
                PictureTask::Convert { .. } => "Conversion failed: "@ + error@,
                _ => error@,
            },
    {
        match self {
            PictureTask::Thumbnail { .. } => concat2("Thumbnail error: ", error),
            PictureTask::Preview { .. } => concat2("Preview error: ", error),
            PictureTask::Convert { .. } => concat2("Conversion failed: ", error),
            _ => error.to_owned(),
        }
    }
}

/// The name of the file that a stretched picture is written to.
pub fn preview_name(file: &str) -> (r: String)
    ensures
        r@ == "astropi_preview_"@ + stem(file@) + ".jpg"@,
{
    concat3("astropi_preview_", file_stem(file).as_str(), ".jpg")
}

/// What is published before a picture is solved. The numbers are text.
pub fn solving_text(path: &str, ra: &str, dec: &str, scale: &str) -> (r: String)
    ensures
        r@ == "Plate solving "@ + path@ + " (hint RA="@ + ra@ + "° Dec="@ + dec@ + "°, ~"@ + scale@
            + "\"/px)..."@,
{
    let mut m = concat3("Plate solving ", path, " (hint RA=");
    m.append(ra);
    m.append("° Dec=");
    m.append(dec);
    m.append("°, ~");
    m.append(scale);
    m.append("\"/px)...");
    m
}

/// The low and the high percentile of a stretched picture.
pub fn stretch(query: &PreviewQuery) -> (r: (String, String))
    ensures
        r.0@ == match query.lo {
            Some(v) => v@,
            None => "0.1"@,
        },
        r.1@ == match query.hi {
            Some(v) => v@,
            None => "99.9"@,
        },
{
    let lo = match &query.lo {
        Some(v) => v.clone(),
        None => "0.1".to_owned(),
    };
    let hi = match &query.hi {
        Some(v) => v.clone(),
        None => "99.9".to_owned(),
    };
    (lo, hi)
}

/// The directory in which a picture to preview is found: that of the captures,
/// else that of the converted ones.
pub fn preview_path(rel: &str, captured: bool, converted: bool) -> (r: Option<String>)
    ensures
        match r {
            Some(p) => (captured || converted) && p@ == if captured {
                under(captures_root(), rel@)
            } else {
                under(fits_dir(), rel@)
            },
            None => !captured && !converted,
        },
{
    if captured {
        Some(capture_path(rel))
    } else if converted {
        Some(fits_path(rel))
    } else {
        None
    }
}

// ---------------------------------------------------------------------------
// Plate solving
// ---------------------------------------------------------------------------

/// The numbers that a picture tells of itself, as text.
#[derive(Debug)]
pub struct PictureHints {
    pub ra: Option<String>,
    pub dec: Option<String>,
    pub pixel_size: Option<String>,
    pub focal: Option<String>,
}

/// The real number in the text field with this key.
pub open spec fn real_field(fields: Seq<(Seq<char>, JsonView)>, key: Seq<char>) -> Option<
    Seq<char>,
> {
    match text_field(fields, key) {
        Some(s) => if is_real(trim(s)) {
            Some(trim(s))
        } else {
            None
        },
        None => None,
    }
}

/// The hints belong to the fields of the header.
pub open spec fn are_hints(fields: Seq<(Seq<char>, JsonView)>, h: PictureHints) -> bool {
    &&& opt(h.ra) == real_field(fields, "RA"@)
    &&& opt(h.dec) == real_field(fields, "DEC"@)
    &&& opt(h.pixel_size) == real_field(fields, "XPIXSZ"@)
    &&& opt(h.focal) == real_field(fields, "FOCAL"@)
}

fn read_real(fields: &Vec<JsonField>, key: &str) -> (r: Option<String>)
    ensures
        opt(r) == real_field(field_views(fields@), key@),
{
    match read_text(fields, key) {
        Some(s) => {
            let t = trimmed_text(s.as_str());
            if text_writes_real(t.as_str()) {
                Some(t)
            } else {
                None
            }
        },
        None => None,
    }
}

/// The hints in the fields of a header.
pub fn hints_of_fields(fields: &Vec<JsonField>) -> (r: PictureHints)
    ensures
        are_hints(field_views(fields@), r),
{
    PictureHints {
        ra: read_real(fields, "RA"),
        dec: read_real(fields, "DEC"),
        pixel_size: read_real(fields, "XPIXSZ"),
        focal: read_real(fields, "FOCAL"),
    }
}

/// The fields of a JSON text, none where it is not JSON.
pub open spec fn fields_of(text: Seq<char>) -> Seq<(Seq<char>, JsonView)> {
    match json_of(text) {
        Ok(fields) => fields,
        Err(_) => Seq::empty(),
    }
}

/// The hints in the header of a picture, which is a JSON text.
pub fn parse_tiffhdr_meta(json: &str) -> (r: PictureHints)
    ensures
        are_hints(fields_of(json@), r),
{
    match parse_json(json) {
        Ok(fields) => hints_of_fields(&fields),
        Err(_) => {
            let fields: Vec<JsonField> = Vec::new();
            assert(field_views(fields@) =~= Seq::<(Seq<char>, JsonView)>::empty());
            hints_of_fields(&fields)
        },
    }
}

/// What the solver is told of a picture: degrees, micrometers and millimeters,
/// as text.
#[derive(Debug)]
pub struct SolveHints {
    pub ra: String,
    pub dec: String,
    pub pixel_size: String,
    pub focal: String,
}

/// The text that the picture itself gives, else another.
pub open spec fn embedded_or(embedded: Option<String>, other: Seq<char>) -> Seq<char> {
    match embedded {
        Some(t) => t@,
        None => other,
    }
}

fn take_embedded(embedded: &Option<String>, other: &str) -> (r: String)
    ensures
        r@ == embedded_or(*embedded, other@),
{
    match embedded {
        Some(t) => t.clone(),
        None => other.to_owned(),
    }
}

/// What the solver is told of a picture. What stands in the picture comes
/// first; the position is else that of the mount, in degrees, or zero where
/// there is no mount, and the optics are else those of the settings.
pub fn solve_hints(
    found: &PictureHints,
    mount: Option<(&str, &str)>,
    camera: &CameraConfig,
) -> (r: SolveHints)
    ensures
        r.ra@ == embedded_or(
            found.ra,
            match mount {
                Some((ra, _)) => ra@,
                None => "0"@,
            },
        ),
        r.dec@ == embedded_or(
            found.dec,
            match mount {
                Some((_, dec)) => dec@,
                None => "0"@,
            },
        ),
        r.pixel_size@ == embedded_or(found.pixel_size, camera.pixel_size_micron@),
        r.focal@ == embedded_or(found.focal, camera.focal_length_mm@),
{
    let (ra, dec) = match mount {
        Some((ra, dec)) => (ra, dec),
        None => ("0", "0"),
    };
    SolveHints {
        ra: take_embedded(&found.ra, ra),
        dec: take_embedded(&found.dec, dec),
        pixel_size: take_embedded(&found.pixel_size, camera.pixel_size_micron.as_str()),
        focal: take_embedded(&found.focal, camera.focal_length_mm.as_str()),
    }
}

/// The answer to a request to solve a picture. Numbers are text.
#[derive(Debug)]
pub struct PlateSolveResponse {
    pub success: bool,
    pub ra_deg: Option<String>,
    pub dec_deg: Option<String>,
    pub scale_arcsec_per_pixel: Option<String>,
    pub message: String,
}

/// The texts of an answer.
pub struct SolveView {
    pub success: bool,
    pub ra_deg: Option<Seq<char>>,
    pub dec_deg: Option<Seq<char>>,
    pub scale_arcsec_per_pixel: Option<Seq<char>>,
    pub message: Seq<char>,
}

impl View for PlateSolveResponse {
    type V = SolveView;

    open spec fn view(&self) -> SolveView {
        SolveView {
            success: self.success,
            ra_deg: opt(self.ra_deg),
            dec_deg: opt(self.dec_deg),
            scale_arcsec_per_pixel: opt(self.scale_arcsec_per_pixel),
            message: self.message@,
        }
    }
}

/// What came of the solver.
#[derive(Debug)]
pub enum SolveOutput {
    /// The file is missing.
    NoFile,
    /// The solver ran and printed this.
    Printed(String),
    /// The solver failed with this message.
    Failed(String),
    /// The solver could not be run, for this reason.
    NotRun(String),
}

/// No solution, for this reason.
pub open spec fn unsolved(message: Seq<char>) -> SolveView {
    SolveView {
        success: false,
        ra_deg: None,
        dec_deg: None,
        scale_arcsec_per_pixel: None,
        message,
    }
}

/// The first `n` characters.
pub open spec fn first_chars(s: Seq<char>, n: int) -> Seq<char> {
    if s.len() <= n {
        s
    } else {
        s.take(n)
    }
}

/// The answer that the fields of the solver's output give. The message of a
/// solution is left to be written.
pub open spec fn solved_view(fields: Seq<(Seq<char>, JsonView)>) -> SolveView {
    let success = true_field(fields, "success"@);
    SolveView {
        success,
        ra_deg: number_field(fields, "ra_deg"@),
        dec_deg: number_field(fields, "dec_deg"@),
        scale_arcsec_per_pixel: number_field(fields, "scale_arcsec_per_pixel"@),
        message: if success {
            ""@
        } else {
            match text_field(fields, "error"@) {
                Some(e) => e,
                None => "No solution found"@,
            }
        },
    }
}

/// The answer to a request to solve a picture.
pub open spec fn solve_view(output: SolveOutput) -> SolveView {
    match output {
        SolveOutput::NoFile => unsolved("File not found"@),
        SolveOutput::Printed(s) => if trim(s@).len() == 0 {
            unsolved("Solver produced no output (check Python / astrometry install)"@)
        } else {
            match json_of(s@) {
                Ok(fields) => solved_view(fields),
                Err(e) => unsolved(
                    "Bad solver output: "@ + e + " — raw: "@ + first_chars(s@, 200),
                ),
            }
        },
        SolveOutput::Failed(e) => unsolved(e@),
        SolveOutput::NotRun(e) => unsolved("Spawning task failed: "@ + e@),
    }
}

fn no_solution(message: String) -> (r: PlateSolveResponse)
    ensures
        r@ == unsolved(message@),
{
    PlateSolveResponse {
        success: false,
        ra_deg: None,
        dec_deg: None,
        scale_arcsec_per_pixel: None,
        message,
    }
}

fn leading(s: &str, n: usize) -> (r: String)
    ensures
        r@ == first_chars(s@, n as int),
{
    let c = chars_of(s);
    if c.len() <= n {
        s.to_owned()
    } else {
        let head = slice_subrange(c.as_slice(), 0, n);
        assert(head@ =~= s@.take(n as int));
        string_of(head)
    }
}

/// The answer that the fields of the solver's output give.
pub fn solve_response_of_fields(fields: &Vec<JsonField>) -> (r: PlateSolveResponse)
    ensures
        r@ == solved_view(field_views(fields@)),
{
    let success = read_true(fields, "success");
    let message = if success {
        "".to_owned()
    } else {
        match read_text(fields, "error") {
            Some(e) => e,
            None => "No solution found".to_owned(),
        }
    };
    PlateSolveResponse {
        success,
        ra_deg: read_number(fields, "ra_deg"),
        dec_deg: read_number(fields, "dec_deg"),
        scale_arcsec_per_pixel: read_number(fields, "scale_arcsec_per_pixel"),
        message,
    }
}

/// The answer to a request to solve a picture. The message of a solution is
/// written with `solved_message`.
pub fn solve_response(output: &SolveOutput) -> (r: PlateSolveResponse)
    ensures
        r@ == solve_view(*output),
{
    match output {
        SolveOutput::NoFile => no_solution("File not found".to_owned()),
        SolveOutput::Printed(s) => {
            if trimmed_text(s.as_str()).as_str().is_empty() {
                return no_solution(
                    "Solver produced no output (check Python / astrometry install)".to_owned(),
                );
            }
            match parse_json(s.as_str()) {
                Ok(fields) => solve_response_of_fields(&fields),
                Err(e) => {
                    let mut message = concat3("Bad solver output: ", e.as_str(), " — raw: ");
                    message.append(leading(s.as_str(), 200).as_str());
                    no_solution(message)
                },
            }
        },
        SolveOutput::Failed(e) => no_solution(e.clone()),
        SolveOutput::NotRun(e) => no_solution(concat2("Spawning task failed: ", e.as_str())),
    }
}

/// The message of a solution. The numbers are text.
pub fn solved_message(ra: &str, dec: &str, scale: &str) -> (r: String)
    ensures
        r@ == "Solved: RA "@ + ra@ + "°  Dec "@ + dec@ + "°  "@ + scale@ + "\"/px"@,
{
    let mut m = concat3("Solved: RA ", ra, "°  Dec ");
    m.append(dec);
    m.append("°  ");
    m.append(scale);
    m.append("\"/px");
    m
}

/// What is published of a request to solve: the message of a solution, or the
/// failure of the solver. A missing file, and a solver that found nothing, are
/// only answered.
pub fn solve_note(output: &SolveOutput, response: &PlateSolveResponse) -> (r: Option<String>)
    ensures
        match r {
            Some(note) => {
                ||| response.success && note@ == response.message@
                ||| !response.success && is_failure(*output) && note@ == "Plate solve failed: "@
                    + response.message@
            },
            None => !response.success && !is_failure(*output),
        },
{
    if response.success {
        return Some(response.message.clone());
    }
    let failed = match output {
        SolveOutput::NoFile => false,
        SolveOutput::Printed(s) => trimmed_text(s.as_str()).as_str().is_empty() || parse_json(
            s.as_str(),
        ).is_err(),
        SolveOutput::Failed(_) => true,
        SolveOutput::NotRun(_) => true,
    };
    if failed {
        Some(concat2("Plate solve failed: ", response.message.as_str()))
    } else {
        None
    }
}

/// The solver did not get as far as looking for a solution.
pub open spec fn is_failure(output: SolveOutput) -> bool {
    match output {
        SolveOutput::NoFile => false,
        SolveOutput::Printed(s) => trim(s@).len() == 0 || json_of(s@) is Err,
        SolveOutput::Failed(_) => true,
        SolveOutput::NotRun(_) => true,
    }
}

// ---------------------------------------------------------------------------
// Laws
// ---------------------------------------------------------------------------

/// The extensions of pictures, and which of them are raw.
pub proof fn law_extensions(ext: Seq<char>)
    ensures
        is_raw_ext(ext) <==> set!["cr3"@, "cr2"@, "nef"@, "arw"@, "dng"@, "raf"@, "orf"@].contains(
            ext,
        ),
        is_image_ext(ext) <==> set![
            "cr3"@,
            "cr2"@,
            "nef"@,
            "arw"@,
            "dng"@,
            "raf"@,
            "orf"@,
            "fits"@,
            "fit"@,
            "jpg"@,
            "jpeg"@,
            "png"@,
            "tiff"@,
            "tif"@,
        ].contains(ext),
        kind_of(ext) == "fits"@ <==> ext == "fits"@ || ext == "fit"@,
        kind_of(ext) == "tiff"@ <==> ext == "tiff"@ || ext == "tif"@,
        ext != "fits"@ && ext != "fit"@ && ext != "tiff"@ && ext != "tif"@ ==> kind_of(ext)
            == "jpeg"@,
{
    reveal_strlit("fits");
    reveal_strlit("fit");
    reveal_strlit("tiff");
    reveal_strlit("tif");
    reveal_strlit("jpeg");
    assert("fits"@[0] == 'f' && "tiff"@[0] == 't' && "jpeg"@[0] == 'j');
    assert("fit"@[0] == 'f' && "tif"@[0] == 't');
}

/// One text stands before another in the dictionary where it is the beginning of
/// it, or where it has the lower character at the first place at which they
/// differ.
pub proof fn law_order_of_the_dictionary(a: Seq<char>, b: Seq<char>)
    ensures
        in_dictionary(a, b) <==> {
            ||| a.len() <= b.len() && forall|i: int| 0 <= i < a.len() ==> #[trigger] a[i] == b[i]
            ||| exists|i: int|
                {
                    &&& 0 <= i < a.len()
                    &&& i < b.len()
                    &&& (#[trigger] a[i] as int) < (b[i] as int)
                    &&& forall|k: int| 0 <= k < i ==> #[trigger] a[k] == b[k]
                }
        },
    decreases a.len(),
{
    let begins_b = a.len() <= b.len() && forall|i: int|
        0 <= i < a.len() ==> #[trigger] a[i] == b[i];
    if a.len() > 0 && b.len() > 0 && a[0] == b[0] {
        let x = a.skip(1);
        let y = b.skip(1);
        law_order_of_the_dictionary(x, y);
        if in_dictionary(x, y) {
            if x.len() <= y.len() && forall|i: int| 0 <= i < x.len() ==> #[trigger] x[i] == y[i] {
                assert forall|i: int| 0 <= i < a.len() implies #[trigger] a[i] == b[i] by {
                    if i > 0 {
                        assert(x[i - 1] == y[i - 1]);
                    }
                }
            } else {
                let i = choose|i: int|
                    {
                        &&& 0 <= i < x.len()
                        &&& i < y.len()
                        &&& (#[trigger] x[i] as int) < (y[i] as int)
                        &&& forall|k: int| 0 <= k < i ==> #[trigger] x[k] == y[k]
                    };
                assert((a[i + 1] as int) < (b[i + 1] as int));
                assert forall|k: int| 0 <= k < i + 1 implies #[trigger] a[k] == b[k] by {
                    if k > 0 {
                        assert(x[k - 1] == y[k - 1]);
                    }
                }
            }
        }
        if begins_b {
            assert forall|i: int| 0 <= i < x.len() implies #[trigger] x[i] == y[i] by {
                assert(a[i + 1] == b[i + 1]);
            }
        } else if exists|i: int|
            {
                &&& 0 <= i < a.len()
                &&& i < b.len()
                &&& (#[trigger] a[i] as int) < (b[i] as int)
                &&& forall|k: int| 0 <= k < i ==> #[trigger] a[k] == b[k]
            } {
            let i = choose|i: int|
                {
                    &&& 0 <= i < a.len()
                    &&& i < b.len()
                    &&& (#[trigger] a[i] as int) < (b[i] as int)
                    &&& forall|k: int| 0 <= k < i ==> #[trigger] a[k] == b[k]
                };
            assert(i > 0);
            assert((x[i - 1] as int) < (y[i - 1] as int));
            assert forall|k: int| 0 <= k < i - 1 implies #[trigger] x[k] == y[k] by {
                assert(a[k + 1] == b[k + 1]);
            }
        }
    } else if a.len() > 0 && b.len() > 0 {
        assert(a[0] != b[0]);
        if begins_b {
            assert(a[0] == b[0]);
        }
        if exists|i: int|
            {
                &&& 0 <= i < a.len()
                &&& i < b.len()
                &&& (#[trigger] a[i] as int) < (b[i] as int)
                &&& forall|k: int| 0 <= k < i ==> #[trigger] a[k] == b[k]
            } {
            let i = choose|i: int|
                {
                    &&& 0 <= i < a.len()
                    &&& i < b.len()
                    &&& (#[trigger] a[i] as int) < (b[i] as int)
                    &&& forall|k: int| 0 <= k < i ==> #[trigger] a[k] == b[k]
                };
            if i > 0 {
                assert(a[0] == b[0]);
            }
        }
    }
}

/// What is listed of a picture: its name, its path below the root, its size and
/// its time, and its kind.
pub proof fn law_what_is_listed_of_a_picture(folder: Seq<char>, node: Node)
    requires
        is_listed_file(node),
        !folder.contains('\\'),
        !node.name@.contains('\\'),
    ensures
        ({
            let f = listed_file(folder, node);
            &&& f.name == node.name@
            &&& folder.len() == 0 ==> f.rel_path == node.name@
            &&& folder.len() > 0 ==> f.rel_path == folder + seq!['/'] + node.name@
            &&& node.kind matches NodeKind::File { size_bytes, modified_ms } && f.size_bytes
                == size_bytes && f.modified_ms == modified_ms
            &&& !f.fits_exists
        }),
{
    reveal_strlit("\\");
    reveal_strlit("/");
    assert("\\"@ =~= seq!['\\']);
    assert("/"@ =~= seq!['/']);
    let path = below(folder, node.name@);
    assert forall|i: int| 0 <= i < path.len() implies path[i] != '\\' by {
        if i < folder.len() {
            assert(folder.contains(folder[i]));
        } else if folder.len() == 0 {
            assert(node.name@.contains(node.name@[i]));
        } else if i > folder.len() {
            assert(node.name@.contains(node.name@[i - folder.len() - 1]));
        }
    }
    law_split_at_the_first(path, '\\', Seq::empty());
}

/// Each backslash of a path is shown as a slash.
pub proof fn law_shown_path(first: Seq<char>, rest: Seq<char>)
    requires
        !first.contains('\\'),
    ensures
        shown_path(first) == first,
        shown_path(first + seq!['\\'] + rest) == first + seq!['/'] + shown_path(rest),
{
    reveal_strlit("\\");
    reveal_strlit("/");
    assert("\\"@ =~= seq!['\\']);
    assert("/"@ =~= seq!['/']);
    let s = first + seq!['\\'] + rest;
    law_split_at_the_first(first, '\\', rest);
    assert(s.take(first.len() as int) =~= first);
    assert(s.skip(first.len() as int + 1) =~= rest);
}

proof fn lemma_slashes_are_stripped(slashes: Seq<char>, s: Seq<char>)
    requires
        forall|i: int| 0 <= i < slashes.len() ==> slashes[i] == '/',
        s.len() == 0 || s[0] != '/',
    ensures
        unrooted(slashes + s) == s,
    decreases slashes.len(),
{
    if slashes.len() > 0 {
        assert((slashes + s)[0] == '/');
        assert((slashes + s).skip(1) =~= slashes.skip(1) + s);
        lemma_slashes_are_stripped(slashes.skip(1), s);
    } else {
        assert(slashes + s =~= s);
    }
}

/// A path that leads nowhere else is left as it is, but for the slashes that it
/// begins with.
pub proof fn law_harmless_path_is_kept(slashes: Seq<char>, path: Seq<char>)
    requires
        forall|i: int| 0 <= i < slashes.len() ==> slashes[i] == '/',
        path.len() == 0 || path[0] != '/',
        !contains(path, ".."@),
    ensures
        sanitised(slashes + path) == path,
{
    lemma_slashes_are_stripped(slashes, path);
    lemma_find(path, ".."@);
    let none = Seq::<char>::empty();
    lemma_slashes_are_stripped(none, path);
    assert(none + path =~= path);
}

/// A name of a cached thumbnail has an underscore for each slash and backslash of
/// the path, and is else the path itself.
pub proof fn law_flattened_path(s: Seq<char>, i: int)
    requires
        0 <= i < s.len(),
    ensures
        flattened(s).len() == s.len(),
        s[i] == '/' || s[i] == '\\' ==> flattened(s)[i] == '_',
        s[i] != '/' && s[i] != '\\' ==> flattened(s)[i] == s[i],
{
}

/// A FITS file is downloaded from the directory of those, and any other file from
/// that of the captures.
pub proof fn law_place_of_a_download(name: Seq<char>, rel: Seq<char>)
    ensures
        download_place(name + ".fits"@) == "imgs/fits"@ + "/"@ + (name + ".fits"@),
        download_place(name + ".fit"@) == "imgs/fits"@ + "/"@ + (name + ".fit"@),
        !ends(rel, ".fits"@) && !ends(rel, ".fit"@) ==> download_place(rel)
            == "imgs/astro_captures"@ + "/"@ + rel,
{
    law_parts_occur(name, ".fits"@, Seq::empty());
    law_parts_occur(name, ".fit"@, Seq::empty());
}

/// The name of a converted picture is that of the picture with the extension of
/// a FITS file.
pub proof fn law_name_of_a_converted_picture(base: Seq<char>, ext: Seq<char>)
    requires
        base.len() > 0,
        !ext.contains('.'),
        base != seq!['.'] || ext.len() > 0,
    ensures
        converted_name(base + seq!['.'] + ext) == base + ".fits"@,
        !base.contains('.') ==> converted_name(base) == base + ".fits"@,
{
    crate::paths::law_last_dot_parts(base, ext);
    if !base.contains('.') {
        crate::paths::law_plain_name_has_no_extension(base);
    }
}

/// The script gets the name of its task first, the picture that it works on next
/// and the file that it writes to, where it writes one, behind that.
pub proof fn law_words_of_a_task(task: PictureTask)
    ensures
        match task {
            PictureTask::Thumbnail { source, target } => task.words() == seq![
                "thumbnail"@,
                source@,
                target@,
            ],
            PictureTask::Preview { source, target, lo, hi } => task.words() == seq![
                "preview"@,
                source@,
                target@,
                lo@,
                hi@,
            ],
            PictureTask::Convert { source, target } => task.words() == seq![
                "fits"@,
                source@,
                target@,
            ],
            PictureTask::FitsHeader { source } => task.words() == seq!["fitshdr"@, source@],
            PictureTask::TiffHeader { source } => task.words() == seq!["tiffhdr"@, source@],
            PictureTask::Solve { source, ra, dec, scale_lo, scale_hi } => task.words() == seq![
                "solve"@,
                source@,
                ra@,
                dec@,
                scale_lo@,
                scale_hi@,
            ],
        },
{
}

/// A file that is not there cannot be deleted; one that is there was deleted
/// where nothing went wrong.
pub proof fn law_answer_to_a_deletion(exists: bool, error: Option<Seq<char>>)
    ensures
        deleted(exists, error).0 == Status::Success <==> exists && error is None,
        deleted(exists, error).0 == Status::NotFound <==> !exists,
        exists && error is Some ==> deleted(exists, error) == (Status::ServerError, error->0),
{
}

/// What is answered of a solver that ran: success where it claims success, its
/// numbers, and else its reason.
pub proof fn law_answer_of_the_solver(fields: Seq<(Seq<char>, JsonView)>)
    ensures
        ({
            let v = solved_view(fields);
            &&& v.success <==> true_field(fields, "success"@)
            &&& v.ra_deg == number_field(fields, "ra_deg"@)
            &&& v.dec_deg == number_field(fields, "dec_deg"@)
            &&& v.scale_arcsec_per_pixel == number_field(fields, "scale_arcsec_per_pixel"@)
            &&& !v.success && text_field(fields, "error"@) is Some ==> v.message == text_field(
                fields,
                "error"@,
            )->0
            &&& !v.success && text_field(fields, "error"@) is None ==> v.message
                == "No solution found"@
        }),
{
}

/// A solver that did not get as far as an answer never yields a position.
pub proof fn law_failed_solver_has_no_position(output: SolveOutput)
    requires
        output is NoFile || is_failure(output),
    ensures
        !solve_view(output).success,
        solve_view(output).ra_deg is None,
        solve_view(output).dec_deg is None,
        solve_view(output).scale_arcsec_per_pixel is None,
        output is NoFile ==> solve_view(output).message == "File not found"@,
        output matches SolveOutput::Failed(e) ==> solve_view(output).message == e@,
        output matches SolveOutput::NotRun(e) ==> solve_view(output).message
            == "Spawning task failed: "@ + e@,
{
}

/// A hint is the number that stands under its key in the header, without white
/// space around it; a text that is no number is no hint.
pub proof fn law_hints_of_a_header(fields: Seq<(Seq<char>, JsonView)>, h: PictureHints)
    requires
        are_hints(fields, h),
    ensures
        opt(h.ra) == real_field(fields, "RA"@),
        opt(h.dec) == real_field(fields, "DEC"@),
        opt(h.pixel_size) == real_field(fields, "XPIXSZ"@),
        opt(h.focal) == real_field(fields, "FOCAL"@),
        forall|key: Seq<char>|
            ({
                let t = text_field(fields, key);
                let r = #[trigger] real_field(fields, key);
                &&& t is Some && is_real(trim(t->0)) ==> r == Some(trim(t->0))
                &&& t is None || !is_real(trim(t->0)) ==> r is None
            }),
{
}

/// What a picture tells of itself counts before anything else.
pub proof fn law_embedded_values_come_first(embedded: Option<String>, other: Seq<char>)
    ensures
        embedded matches Some(t) ==> embedded_or(embedded, other) == t@,
        embedded is None ==> embedded_or(embedded, other) == other,
{
}

/// A name that begins with a dot hides a picture and a folder alike; any other
/// folder is listed, and any other file that is a picture and not a raw one.
pub proof fn law_what_is_hidden(node: Node)
    ensures
        ({
            let hidden = node.name@.len() > 0 && node.name@[0] == '.';
            let ext = lowercase_of(extension(node.name@));
            &&& is_listed_folder(node) <==> node.kind is Folder && !hidden
            &&& is_listed_file(node) <==> node.kind is File && !hidden && is_image_ext(ext)
                && !is_raw_ext(ext)
        }),
{
    reveal_strlit(".");
    let name = node.name@;
    if name.len() > 0 && name[0] == '.' {
        assert(name.subrange(0, 1) =~= "."@);
    }
    if begins(name, "."@) {
        assert(name.subrange(0, 1)[0] == name[0]);
    }
}

/// Where the listed pictures and folders stand in the order.
proof fn lemma_listed_places(folder: Seq<char>, nodes: Seq<Node>, perm: Seq<int>, n: nat) -> (places:
    (Seq<int>, Seq<int>))
    requires
        n <= perm.len(),
    ensures
        ({
            let files = listed_files(folder, nodes, perm, n);
            let folders = listed_folders(nodes, perm, n);
            &&& places.0.len() == files.len()
            &&& places.1.len() == folders.len()
            &&& forall|k: int|
                0 <= k < files.len() ==> 0 <= #[trigger] places.0[k] < n && is_listed_file(
                    nodes[perm[places.0[k]]],
                ) && files[k] == listed_file(folder, nodes[perm[places.0[k]]])
            &&& forall|k: int|
                0 <= k < folders.len() ==> 0 <= #[trigger] places.1[k] < n && is_listed_folder(
                    nodes[perm[places.1[k]]],
                ) && folders[k] == perm[places.1[k]]
            &&& forall|k: int, l: int|
                0 <= k < l < files.len() ==> #[trigger] places.0[k] < #[trigger] places.0[l]
            &&& forall|k: int, l: int|
                0 <= k < l < folders.len() ==> #[trigger] places.1[k] < #[trigger] places.1[l]
        }),
    decreases n,
{
    if n == 0 {
        (Seq::empty(), Seq::empty())
    } else {
        let before = lemma_listed_places(folder, nodes, perm, (n - 1) as nat);
        let node = nodes[perm[n - 1]];
        (
            if is_listed_file(node) {
                before.0.push(n - 1)
            } else {
                before.0
            },
            if is_listed_folder(node) {
                before.1.push(n - 1)
            } else {
                before.1
            },
        )
    }
}

/// The picture is one of the nodes that is to be listed.
pub open spec fn is_picture_of(nodes: Seq<Node>, path: Seq<char>, f: FileView) -> bool {
    exists|i: int|
        0 <= i < nodes.len() && is_listed_file(#[trigger] nodes[i]) && f == listed_file(
            path,
            nodes[i],
        )
}

/// The folder lists one of the nodes that is to be listed.
pub open spec fn is_folder_of(nodes: Seq<Node>, path: Seq<char>, out: GalleryFolder) -> bool {
    exists|i: int|
        0 <= i < nodes.len() && is_listed_folder(#[trigger] nodes[i]) && is_node_listing(
            nodes[i],
            path,
            out,
        )
}

/// What a listing holds: its pictures and its folders stand in the order of the
/// dictionary; each picture is one of the folder that is to be listed, and every
/// such one is there; each folder is one that is not hidden, listed in turn.
pub proof fn law_listing_of_a_folder(
    name: Seq<char>,
    path: Seq<char>,
    nodes: Seq<Node>,
    out: GalleryFolder,
)
    requires
        is_listing(name, path, nodes, out),
    ensures
        out.name@ == name,
        out.rel_path@ == shown_path(path),
        forall|k: int, l: int|
            0 <= k < l < out.files@.len() ==> in_dictionary(
                (#[trigger] out.files@[k]).name@,
                (#[trigger] out.files@[l]).name@,
            ),
        forall|k: int, l: int|
            0 <= k < l < out.folders@.len() ==> in_dictionary(
                (#[trigger] out.folders@[k]).name@,
                (#[trigger] out.folders@[l]).name@,
            ),
        forall|k: int|
            0 <= k < out.files@.len() ==> is_picture_of(nodes, path, (#[trigger] out.files@[k])@),
        forall|i: int|
            0 <= i < nodes.len() && is_listed_file(#[trigger] nodes[i]) ==> exists|k: int|
                0 <= k < out.files@.len() && (#[trigger] out.files@[k])@ == listed_file(
                    path,
                    nodes[i],
                ),
        forall|k: int|
            0 <= k < out.folders@.len() ==> is_folder_of(nodes, path, #[trigger] out.folders@[k]),
        forall|i: int|
            0 <= i < nodes.len() && is_listed_folder(#[trigger] nodes[i]) ==> exists|k: int|
                0 <= k < out.folders@.len() && is_node_listing(
                    nodes[i],
                    path,
                    #[trigger] out.folders@[k],
                ),
{
    let perm = choose|perm: Seq<int>|
        {
            let folders = listed_folders(nodes, perm, perm.len());
            &&& #[trigger] is_name_order(nodes, perm)
            &&& file_views(out.files@) == listed_files(path, nodes, perm, perm.len())
            &&& out.folders@.len() == folders.len()
            &&& forall|k: int|
                0 <= k < folders.len() ==> 0 <= #[trigger] folders[k] < nodes.len()
                    && is_node_listing(nodes[folders[k]], path, out.folders@[k])
        };
    let files = listed_files(path, nodes, perm, perm.len());
    let folders = listed_folders(nodes, perm, perm.len());
    let places = lemma_listed_places(path, nodes, perm, perm.len());
    assert(files.len() == out.files@.len());
    assert forall|k: int, l: int| 0 <= k < l < out.files@.len() implies in_dictionary(
        (#[trigger] out.files@[k]).name@,
        (#[trigger] out.files@[l]).name@,
    ) by {
        assert(file_views(out.files@)[k] == out.files@[k]@);
        assert(file_views(out.files@)[l] == out.files@[l]@);
        assert(places.0[k] < places.0[l]);
        assert(in_dictionary(nodes[perm[places.0[k]]].name@, nodes[perm[places.0[l]]].name@));
    }
    assert forall|k: int| 0 <= k < out.folders@.len() implies (#[trigger] out.folders@[k]).name@
        == nodes[folders[k]].name@ && is_listed_folder(nodes[folders[k]]) by {
        assert(folders[k] == perm[places.1[k]]);
        assert(is_node_listing(nodes[folders[k]], path, out.folders@[k]));
    }
    assert forall|k: int, l: int| 0 <= k < l < out.folders@.len() implies in_dictionary(
        (#[trigger] out.folders@[k]).name@,
        (#[trigger] out.folders@[l]).name@,
    ) by {
        assert(places.1[k] < places.1[l]);
        assert(in_dictionary(nodes[perm[places.1[k]]].name@, nodes[perm[places.1[l]]].name@));
    }
    assert forall|k: int| 0 <= k < out.files@.len() implies is_picture_of(
        nodes,
        path,
        (#[trigger] out.files@[k])@,
    ) by {
        assert(file_views(out.files@)[k] == out.files@[k]@);
        let i = perm[places.0[k]];
        assert(is_listed_file(nodes[i]) && out.files@[k]@ == listed_file(path, nodes[i]));
    }
    assert forall|i: int| 0 <= i < nodes.len() && is_listed_file(#[trigger] nodes[i]) implies exists|
        k: int,
    |
        0 <= k < out.files@.len() && (#[trigger] out.files@[k])@ == listed_file(path, nodes[i]) by {
        law_everything_is_listed(path, nodes, perm, i);
        let k = choose|k: int| 0 <= k < files.len() && files[k] == listed_file(path, nodes[i]);
        assert(file_views(out.files@)[k] == out.files@[k]@);
    }
    assert forall|k: int| 0 <= k < out.folders@.len() implies is_folder_of(
        nodes,
        path,
        #[trigger] out.folders@[k],
    ) by {
        let i = folders[k];
        assert(is_listed_folder(nodes[i]) && is_node_listing(nodes[i], path, out.folders@[k]));
    }
    assert forall|i: int|
        0 <= i < nodes.len() && is_listed_folder(#[trigger] nodes[i]) implies exists|k: int|
        0 <= k < out.folders@.len() && is_node_listing(
            nodes[i],
            path,
            #[trigger] out.folders@[k],
        ) by {
        law_everything_is_listed(path, nodes, perm, i);
        let k = choose|k: int| 0 <= k < folders.len() && folders[k] == i;
        assert(is_node_listing(nodes[folders[k]], path, out.folders@[k]));
    }
}

} // verus!
