use vstd::prelude::*;
use crate::listing::{FileType, ListItem};
use crate::task::{Task, TaskType};
use crate::yum::{
    is_yum_primary_xml, is_yum_repomd_xml, parse_package, parsed_packages, primary_suffix,
    repomd_name, PackageView, YumError, YumPackage, YumXmlType,
};
use crate::text::ends_with;
use crate::text::file_name;

verus! {

/// A download discovered in repository metadata.
pub struct ExtensionPackage {
    pub url: String,
    /// Directory segments below the local root.
    pub relative: Vec<String>,
    pub filename: String,
}

impl View for ExtensionPackage {
    type V = PackageView;

    open spec fn view(&self) -> PackageView {
        PackageView { url: self.url@, relative: self.relative.deep_view(), filename: self.filename@ }
    }
}

impl From<YumPackage> for ExtensionPackage {
    fn from(val: YumPackage) -> (r: ExtensionPackage)
        ensures
            r@ == val@,
    {
        ExtensionPackage { url: val.url, relative: val.relative, filename: val.filename }
    }
}

impl vstd::std_specs::convert::FromSpecImpl<YumPackage> for ExtensionPackage {
    open spec fn obeys_from_spec() -> bool {
        true
    }

    open spec fn from_spec(v: YumPackage) -> ExtensionPackage {
        ExtensionPackage { url: v.url, relative: v.relative, filename: v.filename }
    }
}

/// The kind of repository metadata the file at `path` is, judged by its name.
pub open spec fn yum_type_of(path: Seq<char>) -> Option<YumXmlType> {
    match file_name(path) {
        Some(f) => if ends_with(f, primary_suffix()) {
            Some(YumXmlType::Primary)
        } else if f == repomd_name() {
            Some(YumXmlType::Repomd)
        } else {
            None
        },
        None => None,
    }
}

/// The kind of repository metadata the file at `path` is, if any.
pub fn yum_xml_type(path: &str) -> (r: Option<YumXmlType>)
    ensures
        r == yum_type_of(path@),
{
    let is_primary = is_yum_primary_xml(path);
    let is_repomd = is_yum_repomd_xml(path);
    if is_primary {
        Some(YumXmlType::Primary)
    } else if is_repomd {
        Some(YumXmlType::Repomd)
    } else {
        None
    }
}

pub open spec fn extension_views(r: Result<Vec<ExtensionPackage>, YumError>) -> Result<Seq<PackageView>, YumError> {
    match r {
        Ok(v) => Ok(v@.map_values(|p: ExtensionPackage| p@)),
        Err(e) => Err(e),
    }
}

/// The downloads that a completed file at `path`, with `contents`, fetched
/// from `url` into the directory with segments `relative`, adds: the packages
/// its repository metadata names when package expansion is on, else none.
pub fn extension_handler(
    yum_packages: bool,
    path: &str,
    relative: &Vec<String>,
    url: &str,
    contents: &[u8],
) -> (r: Result<Vec<ExtensionPackage>, YumError>)
    ensures
        extension_views(r) == match (yum_packages, yum_type_of(path@)) {
            (true, Some(t)) => parsed_packages(contents@, relative.deep_view(), url@, t),
            _ => Ok(Seq::<PackageView>::empty()),
        },
{
    let kind = if yum_packages { yum_xml_type(path) } else { None };
    let t = match kind {
        Some(t) => t,
        None => {
            let empty: Vec<ExtensionPackage> = Vec::new();
            assert(empty@.map_values(|p: ExtensionPackage| p@) =~= Seq::<PackageView>::empty());
            return Ok(empty);
        },
    };
    let packages = match parse_package(contents, relative, url, t) {
        Ok(v) => v,
        Err(e) => return Err(e),
    };
    let ghost pv = packages@.map_values(|p: YumPackage| p@);
    let mut out: Vec<ExtensionPackage> = Vec::new();
    let mut rest = packages;
    while rest.len() > 0
        invariant
            out@.map_values(|p: ExtensionPackage| p@) + rest@.map_values(|p: YumPackage| p@) == pv,
        decreases rest.len(),
    {
        let ghost before_out = out@.map_values(|p: ExtensionPackage| p@);
        let ghost before_rest = rest@;
        let p = rest.remove(0);
        out.push(ExtensionPackage::from(p));
        assert(out@.map_values(|p: ExtensionPackage| p@) =~= before_out.push(p@));
        assert(before_rest.map_values(|p: YumPackage| p@)
            =~= seq![p@] + rest@.map_values(|p: YumPackage| p@));
    }
    assert(out@.map_values(|p: ExtensionPackage| p@) =~= pv);
    Ok(out)
}

/// The download task for a package found in metadata: it is judged by local
/// existence alone, so it carries no size and no time.
pub fn extension_push_task(package: &ExtensionPackage) -> (r: Task)
    ensures
        r@.url == package.url@,
        r@.relative == package.relative.deep_view(),
        r@.download matches Some(item) && item.url == package.url@ && item.name == package.filename@
            && item.type_ == FileType::File && item.size is None && item.mtime == 0 && item.skip_check,
{
    let relative = package.relative.clone();
    proof {
        vstd::std_specs::vec::vec_clone_deep_view_proof(package.relative, relative);
    }
    Task {
        task: TaskType::Download(ListItem {
            url: package.url.clone(),
            name: package.filename.clone(),
            type_: FileType::File,
            size: None,
            mtime: 0,
            skip_check: true,
        }),
        relative,
        url: package.url.clone(),
    }
}

} // verus!
