use vstd::prelude::*;
use crate::exclusion::{regex_compiles, regex_group, Pattern};
use crate::text::{
    ends_with, find_char, lemma_next_index_of, lines_from, next_index_of, split_char, split_on,
    str_ends_with, strip_cr, file_name, path_file_name,
};

verus! {

/// The pattern that picks a package location out of one metadata line.
pub open spec fn location_pattern() -> Seq<char> {
    seq![
        '<', 'l', 'o', 'c', 'a', 't', 'i', 'o', 'n', ' ', 'h', 'r', 'e', 'f', '=', '"',
        '(', '.', '+', '?', ')', '"', '.', '*', '/', '>',
    ]
}

/// The locations that `lines` hold, in order: the first capture group of
/// `pattern` on each line where it matches.
pub open spec fn captures(pattern: Seq<char>, lines: Seq<Seq<char>>) -> Seq<Seq<char>>
    decreases lines.len(),
{
    if lines.len() == 0 {
        Seq::empty()
    } else {
        (match regex_group(pattern, lines[0]) {
            Some(c) => seq![c],
            None => Seq::empty(),
        }) + captures(pattern, lines.drop_first())
    }
}

/// Every capture of `pattern` in a document, line by line.
pub fn captures_by_line(pattern: &Pattern, s: &str) -> (r: Vec<String>)
    ensures
        r.deep_view() == captures(pattern.text(), lines_from(s@, 0)),
{
    let n = s.unicode_len();
    let mut r: Vec<String> = Vec::new();
    let mut start: usize = 0;
    while start < n
        invariant
            n == s@.len(),
            0 <= start <= n,
            r.deep_view() + captures(pattern.text(), lines_from(s@, start as int)) == captures(pattern.text(), lines_from(s@, 0)),
        decreases n - start,
    {
        let e = find_char(s, start, '\n');
        proof {
            lemma_next_index_of(s@, start as int, '\n');
        }
        let line: String = if e < n {
            if e > start && s.get_char(e - 1) == '\r' {
                s.substring_char(start, e - 1).to_string()
            } else {
                s.substring_char(start, e).to_string()
            }
        } else {
            s.substring_char(start, n).to_string()
        };
        let ghost ls = lines_from(s@, start as int);
        proof {
            let sub = s@.subrange(start as int, e as int);
            if e < n {
                if e > start && s@[e - 1] == '\r' {
                    assert(strip_cr(sub) =~= s@.subrange(start as int, e - 1));
                } else {
                    assert(strip_cr(sub) == sub);
                }
                assert(line@ == strip_cr(sub));
                assert(ls == seq![line@] + lines_from(s@, e + 1));
            } else {
                assert(ls == seq![line@]);
            }
            assert(ls[0] == line@);
        }
        let c = pattern.first_group(line.as_str());
        let ghost before = r.deep_view();
        let next: usize = if e < n { e + 1 } else { n };
        proof {
            assert(ls.drop_first() =~= lines_from(s@, next as int));
        }
        match c {
            Some(loc) => {
                r.push(loc);
                assert(r.deep_view() =~= before + seq![regex_group(pattern.text(), ls[0])->0]);
            },
            None => {},
        }
        assert(r.deep_view() + captures(pattern.text(), lines_from(s@, next as int)) =~= before + captures(pattern.text(), ls));
        start = next;
    }
    assert(r.deep_view() =~= r.deep_view() + captures(pattern.text(), lines_from(s@, start as int)));
    r
}

/// The package locations a metadata document holds, line by line, or `None`
/// when the location pattern is refused by the regular expression engine.
pub open spec fn locations_of(text: Seq<char>) -> Option<Seq<Seq<char>>> {
    if regex_compiles(location_pattern()) {
        Some(captures(location_pattern(), lines_from(text, 0)))
    } else {
        None
    }
}

/// Every package location in a metadata document, line by line.
pub fn get_locations_from_xml(s: &str) -> (r: Result<Vec<String>, YumError>)
    ensures
        match locations_of(s@) {
            Some(l) => r matches Ok(v) && v.deep_view() == l,
            None => r == Err::<Vec<String>, YumError>(YumError::Pattern),
        },
{
    proof {
        reveal_strlit("<location href=\"(.+?)\".*/>");
        assert("<location href=\"(.+?)\".*/>"@ =~= location_pattern());
    }
    match Pattern::new("<location href=\"(.+?)\".*/>") {
        Ok(p) => Ok(captures_by_line(&p, s)),
        Err(_) => Err(YumError::Pattern),
    }
}

pub open spec fn primary_suffix() -> Seq<char> {
    seq!['p', 'r', 'i', 'm', 'a', 'r', 'y', '.', 'x', 'm', 'l', '.', 'g', 'z']
}

pub open spec fn repomd_name() -> Seq<char> {
    seq!['r', 'e', 'p', 'o', 'm', 'd', '.', 'x', 'm', 'l']
}

/// Whether the file name of `p` ends with `primary.xml.gz`.
pub fn is_yum_primary_xml(p: &str) -> (r: bool)
    ensures
        r == match file_name(p@) {
            Some(f) => ends_with(f, primary_suffix()),
            None => false,
        },
{
    match path_file_name(p) {
        Some(f) => {
            proof {
                reveal_strlit("primary.xml.gz");
                assert("primary.xml.gz"@ =~= primary_suffix());
            }
            str_ends_with(f.as_str(), "primary.xml.gz")
        },
        None => false,
    }
}

/// Whether the file name of `p` is `repomd.xml`.
pub fn is_yum_repomd_xml(p: &str) -> (r: bool)
    ensures
        r == match file_name(p@) {
            Some(f) => f == repomd_name(),
            None => false,
        },
{
    match path_file_name(p) {
        Some(f) => {
            proof {
                reveal_strlit("repomd.xml");
                assert("repomd.xml"@ =~= repomd_name());
            }
            let b = f.as_str().unicode_len() == 10 && str_ends_with(f.as_str(), "repomd.xml");
            proof {
                if f@.len() == 10 {
                    assert(f@.subrange(0, 10) =~= f@);
                }
            }
            b
        },
        None => false,
    }
}

/// No file name is both a primary index and a repository meta-index.
pub proof fn primary_and_repomd_exclusive(name: Seq<char>)
    ensures
        !(ends_with(name, primary_suffix()) && name == repomd_name()),
{
    if name == repomd_name() {
        assert(name.len() < primary_suffix().len());
    }
}

/// Kind of repository metadata file.
#[derive(PartialEq, Eq, Structural, Clone, Copy, Debug)]
pub enum YumXmlType {
    /// A gzip-compressed primary package index.
    Primary,
    /// A repository meta-index.
    Repomd,
}

/// What the gzip decoder yields for `bytes` read as UTF-8 text, if it
/// succeeds.
pub uninterp spec fn gunzip_text(bytes: Seq<u8>) -> Option<Seq<char>>;

/// `bytes` read as UTF-8, each invalid sequence replaced by U+FFFD.
pub uninterp spec fn utf8_lossy(bytes: Seq<u8>) -> Seq<char>;

/// `reference` resolved against the absolute URL `base`, serialized; `None`
/// when `base` is not a URL or the result is not one.
pub uninterp spec fn joined_url(base: Seq<char>, reference: Seq<char>) -> Option<Seq<char>>;

/// `url` without its last path segment, serialized; `None` when `url` is not
/// a URL with a hierarchical path.
pub uninterp spec fn popped_url(url: Seq<char>) -> Option<Seq<char>>;

/// `url` with `segment` added as a last path segment, serialized; `None` when
/// `url` is not a URL with a hierarchical path.
pub uninterp spec fn pushed_url(url: Seq<char>, segment: Seq<char>) -> Option<Seq<char>>;

/// The repository directory URL for a metadata file at `url`: the file name
/// and the metadata directory popped, and an empty segment pushed so that the
/// URL ends with `/`.
pub open spec fn repo_base_url(url: Seq<char>) -> Option<Seq<char>> {
    match popped_url(url) {
        None => None,
        Some(a) => match popped_url(a) {
            None => None,
            Some(b) => pushed_url(b, Seq::empty()),
        },
    }
}

/// Relies on flate2::read::GzDecoder with std::io::Read::read_to_string: the
/// decompressed text, or `None` when the data is not gzip or not UTF-8.
#[verifier::external_body]
fn gunzip_to_string(bytes: &[u8]) -> (r: Option<String>)
    ensures
        match r {
            Some(t) => gunzip_text(bytes@) == Some(t@),
            None => gunzip_text(bytes@) is None,
        },
{
    let mut text = String::new();
    match std::io::Read::read_to_string(&mut flate2::read::GzDecoder::new(bytes), &mut text) {
        Ok(_) => Some(text),
        Err(_) => None,
    }
}

/// Relies on String::from_utf8_lossy: the bytes as text, never failing.
#[verifier::external_body]
fn from_utf8_lossy(bytes: &[u8]) -> (r: String)
    ensures
        r@ == utf8_lossy(bytes@),
{
    String::from_utf8_lossy(bytes).into_owned()
}

/// Relies on url::Url::join: resolves `reference` against `base`.
#[verifier::external_body]
pub(crate) fn url_join(base: &str, reference: &str) -> (r: Option<String>)
    ensures
        match r {
            Some(u) => joined_url(base@, reference@) == Some(u@),
            None => joined_url(base@, reference@) is None,
        },
{
    match url::Url::parse(base) {
        Ok(b) => match b.join(reference) {
            Ok(u) => Some(u.to_string()),
            Err(_) => None,
        },
        Err(_) => None,
    }
}

/// Relies on url::Url::path_segments_mut and PathSegmentsMut::pop: removes
/// the last path segment.
#[verifier::external_body]
fn url_pop_segment(url: &str) -> (r: Option<String>)
    ensures
        match r {
            Some(u) => popped_url(url@) == Some(u@),
            None => popped_url(url@) is None,
        },
{
    let mut u = match url::Url::parse(url) {
        Ok(u) => u,
        Err(_) => return None,
    };
    match u.path_segments_mut() {
        Ok(mut segs) => {
            segs.pop();
        },
        Err(_) => return None,
    }
    Some(u.to_string())
}

/// Relies on url::Url::path_segments_mut and PathSegmentsMut::push: adds
/// `segment` as the last path segment.
#[verifier::external_body]
fn url_push_segment(url: &str, segment: &str) -> (r: Option<String>)
    ensures
        match r {
            Some(u) => pushed_url(url@, segment@) == Some(u@),
            None => pushed_url(url@, segment@) is None,
        },
{
    let mut u = match url::Url::parse(url) {
        Ok(u) => u,
        Err(_) => return None,
    };
    match u.path_segments_mut() {
        Ok(mut segs) => {
            segs.push(segment);
        },
        Err(_) => return None,
    }
    Some(u.to_string())
}

/// The repository directory URL for a metadata file at `url`.
pub fn repo_base(url: &str) -> (r: Option<String>)
    ensures
        match r {
            Some(u) => repo_base_url(url@) == Some(u@),
            None => repo_base_url(url@) is None,
        },
{
    let parent = match url_pop_segment(url) {
        Some(p) => p,
        None => return None,
    };
    let grandparent = match url_pop_segment(parent.as_str()) {
        Some(g) => g,
        None => return None,
    };
    proof {
        reveal_strlit("");
    }
    let r = url_push_segment(grandparent.as_str(), "");
    assert(""@ =~= Seq::<char>::empty());
    r
}

/// Why repository metadata could not be expanded.
#[derive(PartialEq, Eq, Structural, Clone, Copy, Debug)]
pub enum YumError {
    /// The primary index is not gzip-compressed UTF-8 text.
    Decompress,
    /// The metadata URL has no directory two levels up.
    BaseUrl,
    /// A package location does not resolve to a URL.
    PackageUrl,
    /// The location pattern was refused by the regular expression engine.
    Pattern,
}

/// Package locations of a gzip-compressed primary index.
pub fn read_primary_xml(bytes: &[u8]) -> (r: Result<Vec<String>, YumError>)
    ensures
        match gunzip_text(bytes@) {
            None => r == Err::<Vec<String>, YumError>(YumError::Decompress),
            Some(t) => match locations_of(t) {
                Some(l) => r matches Ok(v) && v.deep_view() == l,
                None => r == Err::<Vec<String>, YumError>(YumError::Pattern),
            },
        },
{
    match gunzip_to_string(bytes) {
        Some(t) => get_locations_from_xml(t.as_str()),
        None => Err(YumError::Decompress),
    }
}

/// Package locations of a repository meta-index.
pub fn read_yum_repomd_xml(bytes: &[u8]) -> (r: Result<Vec<String>, YumError>)
    ensures
        match locations_of(utf8_lossy(bytes@)) {
            Some(l) => r matches Ok(v) && v.deep_view() == l,
            None => r == Err::<Vec<String>, YumError>(YumError::Pattern),
        },
{
    let t = from_utf8_lossy(bytes);
    get_locations_from_xml(t.as_str())
}

/// A package named by repository metadata.
pub struct YumPackage {
    pub url: String,
    /// Directory segments below the local root.
    pub relative: Vec<String>,
    pub filename: String,
}

/// A package as plain values.
pub struct PackageView {
    pub url: Seq<char>,
    pub relative: Seq<Seq<char>>,
    pub filename: Seq<char>,
}

impl View for YumPackage {
    type V = PackageView;

    open spec fn view(&self) -> PackageView {
        PackageView { url: self.url@, relative: self.relative.deep_view(), filename: self.filename@ }
    }
}

/// The package at `location`, relative to the repository directory `rel`
/// whose URL is `base`: `None` when the location does not resolve.
pub open spec fn package_at(rel: Seq<Seq<char>>, base: Seq<char>, location: Seq<char>) -> Option<PackageView> {
    match joined_url(base, location) {
        None => None,
        Some(u) => {
            let full = rel + split_on(location, '/');
            Some(PackageView { url: u, relative: full.drop_last(), filename: full.last() })
        },
    }
}

/// Whether every one of `locations` resolves.
pub open spec fn all_resolve(rel: Seq<Seq<char>>, base: Seq<char>, locations: Seq<Seq<char>>) -> bool {
    forall|i: int| 0 <= i < locations.len() ==> (#[trigger] package_at(rel, base, locations[i])) is Some
}

/// The segments of the repository directory: those of the metadata file's
/// directory without its last one (the metadata directory).
pub open spec fn repo_relative(relative: Seq<Seq<char>>) -> Seq<Seq<char>> {
    if relative.len() == 0 { relative } else { relative.drop_last() }
}

/// The packages at `locations`, each of which resolves.
pub open spec fn package_views(rel: Seq<Seq<char>>, base: Seq<char>, locations: Seq<Seq<char>>) -> Seq<PackageView> {
    locations.map_values(|l: Seq<char>| package_at(rel, base, l)->0)
}

/// The packages that `locations` name in a metadata file fetched from `url`
/// into the directory with segments `relative`, or why there are none.
pub open spec fn located_packages(locations: Seq<Seq<char>>, relative: Seq<Seq<char>>, url: Seq<char>) -> Result<Seq<PackageView>, YumError> {
    match repo_base_url(url) {
        None => Err(YumError::BaseUrl),
        Some(base) => {
            let rel = repo_relative(relative);
            if all_resolve(rel, base, locations) {
                Ok(package_views(rel, base, locations))
            } else {
                Err(YumError::PackageUrl)
            }
        },
    }
}

/// The text of a metadata file of kind `t`.
pub open spec fn metadata_text(contents: Seq<u8>, t: YumXmlType) -> Option<Seq<char>> {
    if t == YumXmlType::Primary { gunzip_text(contents) } else { Some(utf8_lossy(contents)) }
}

/// The packages that a metadata file of kind `t` with `contents` names.
pub open spec fn parsed_packages(contents: Seq<u8>, relative: Seq<Seq<char>>, url: Seq<char>, t: YumXmlType) -> Result<Seq<PackageView>, YumError> {
    match metadata_text(contents, t) {
        None => Err(YumError::Decompress),
        Some(text) => match locations_of(text) {
            None => Err(YumError::Pattern),
            Some(l) => located_packages(l, relative, url),
        },
    }
}

pub open spec fn result_views(r: Result<Vec<YumPackage>, YumError>) -> Result<Seq<PackageView>, YumError> {
    match r {
        Ok(v) => Ok(v@.map_values(|p: YumPackage| p@)),
        Err(e) => Err(e),
    }
}

/// The packages named by `locations`, found in a metadata file fetched from
/// `packages_url` into the directory with segments `relative`.
pub fn packages_from_locations(locations: &Vec<String>, relative: &Vec<String>, packages_url: &str) -> (r: Result<Vec<YumPackage>, YumError>)
    ensures
        result_views(r) == located_packages(locations.deep_view(), relative.deep_view(), packages_url@),
{
    let base = match repo_base(packages_url) {
        Some(b) => b,
        None => return Err(YumError::BaseUrl),
    };
    let mut rel = relative.clone();
    proof {
        vstd::std_specs::vec::vec_clone_deep_view_proof(*relative, rel);
    }
    let ghost rv = repo_relative(relative.deep_view());
    if rel.len() > 0 {
        rel.pop();
        assert(rel.deep_view() =~= rv);
    }
    let ghost locs = locations.deep_view();
    let mut res: Vec<YumPackage> = Vec::new();
    let mut i: usize = 0;
    while i < locations.len()
        invariant
            0 <= i <= locations.len(),
            locs == locations.deep_view(),
            rel.deep_view() == rv,
            rv == repo_relative(relative.deep_view()),
            repo_base_url(packages_url@) == Some(base@),
            res@.len() == i,
            forall|k: int| 0 <= k < i ==> Some(#[trigger] res@[k]@) == package_at(rv, base@, locs[k]),
        decreases locations.len() - i,
    {
        let loc = locations[i].as_str();
        assert(locs[i as int] == loc@);
        let url = match url_join(base.as_str(), loc) {
            Some(u) => u,
            None => {
                assert(package_at(rv, base@, locs[i as int]) is None);
                assert(!all_resolve(rv, base@, locs));
                return Err(YumError::PackageUrl);
            },
        };
        let pieces = split_char(loc, '/');
        let mut full = rel.clone();
        proof {
            vstd::std_specs::vec::vec_clone_deep_view_proof(rel, full);
        }
        let mut j: usize = 0;
        while j < pieces.len()
            invariant
                0 <= j <= pieces.len(),
                full.deep_view() == rv + pieces.deep_view().take(j as int),
            decreases pieces.len() - j,
        {
            let ghost before = full.deep_view();
            full.push(pieces[j].clone());
            assert(full.deep_view() =~= before.push(pieces@[j as int]@));
            assert(pieces.deep_view()[j as int] == pieces@[j as int]@);
            assert(pieces.deep_view().take(j + 1) =~= pieces.deep_view().take(j as int).push(pieces.deep_view()[j as int]));
            assert(full.deep_view() =~= rv + pieces.deep_view().take(j + 1));
            j = j + 1;
        }
        assert(pieces.deep_view().take(j as int) =~= pieces.deep_view());
        let ghost whole = full.deep_view();
        let filename = full.pop().unwrap();
        assert(full.deep_view() =~= whole.drop_last());
        res.push(YumPackage { url, relative: full, filename });
        i = i + 1;
    }
    proof {
        assert forall|k: int| 0 <= k < locs.len() implies (#[trigger] package_at(rv, base@, locs[k])) is Some by {
            assert(Some(res@[k]@) == package_at(rv, base@, locs[k]));
        }
        assert(res@.map_values(|p: YumPackage| p@) =~= package_views(rv, base@, locs));
    }
    Ok(res)
}

/// The packages that a repository metadata file names, from its contents.
pub fn parse_package(contents: &[u8], relative: &Vec<String>, packages_url: &str, xml_type: YumXmlType) -> (r: Result<Vec<YumPackage>, YumError>)
    ensures
        result_views(r) == parsed_packages(contents@, relative.deep_view(), packages_url@, xml_type),
{
    let locations = match xml_type {
        YumXmlType::Primary => match read_primary_xml(contents) {
            Ok(v) => v,
            Err(e) => return Err(e),
        },
        YumXmlType::Repomd => match read_yum_repomd_xml(contents) {
            Ok(v) => v,
            Err(e) => return Err(e),
        },
    };
    packages_from_locations(&locations, relative, packages_url)
}

} // verus!
