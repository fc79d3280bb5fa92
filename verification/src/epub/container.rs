//! The OCF container document, `META-INF/container.xml`.
use vstd::prelude::*;
use crate::string_of::StringOf;
use crate::text::str_eq;

verus! {

/// The namespace of the container document.
pub const EPUB_CONTAINER_NAMESPACE: &'static str = "urn:oasis:names:tc:opendocument:xmlns:container";

/// The media type of an EPUB package document.
pub const EPUB_PACKAGE_MIME_TYPE: &'static str = "application/oebps-package+xml";

/// The media type of an EPUB package document, as characters.
pub open spec fn package_mime() -> Seq<char> {
    "application/oebps-package+xml"@
}

/// The container element: all the information in the container document.
pub struct ContainerSpec {
    pub version: StringOf,
    pub xmlns: StringOf,
    pub rootfiles: RootFiles,
    pub links: Option<Links>,
}

/// The list of package documents in the container.
pub struct RootFiles {
    pub rootfile: Vec<RootFile>,
}

/// The location and media type of one package document.
#[derive(Clone)]
pub struct RootFile {
    /// The location of the package document, relative to the root directory.
    pub full_path: String,
    /// The media type of the package document.
    pub media_type: String,
}

/// The resources needed to process the container.
pub struct Links {
    pub links: Vec<Link>,
}

/// One resource needed to process the container.
pub struct Link {
    pub href: String,
    pub media_type: Option<String>,
    pub rel: String,
}

/// Whether a root file is an EPUB package document.
pub open spec fn is_package(f: RootFile) -> bool {
    f.media_type@ == package_mime()
}

/// The package documents among `files`, in order.
pub open spec fn packages(files: Seq<RootFile>) -> Seq<RootFile> {
    files.filter(|f: RootFile| is_package(f))
}

/// The root files that a list of references points to.
pub open spec fn derefs(v: Seq<&RootFile>) -> Seq<RootFile> {
    v.map_values(|f: &RootFile| *f)
}

impl RootFiles {
    /// The EPUB package documents, in order, leaving out alternate
    /// renderings of any other media type.
    pub fn package_iter(&self) -> (r: Vec<&RootFile>)
        ensures
            derefs(r@) == packages(self.rootfile@),
    {
        let mut out: Vec<&RootFile> = Vec::new();
        let mut i: usize = 0;
        let ghost pred = |f: RootFile| is_package(f);
        proof {
            reveal(Seq::filter);
            assert(self.rootfile@.take(0) =~= Seq::<RootFile>::empty());
            assert(derefs(out@) =~= Seq::<RootFile>::empty());
        }
        while i < self.rootfile.len()
            invariant
                i <= self.rootfile.len(),
                derefs(out@) == self.rootfile@.take(i as int).filter(pred),
                pred == (|f: RootFile| is_package(f)),
            decreases self.rootfile.len() - i,
        {
            proof {
                reveal(Seq::filter);
                assert(self.rootfile@.take(i + 1).drop_last() =~= self.rootfile@.take(i as int));
            }
            let f = &self.rootfile[i];
            let ghost before = derefs(out@);
            if str_eq(f.media_type.as_str(), EPUB_PACKAGE_MIME_TYPE) {
                out.push(f);
                proof {
                    assert(derefs(out@) =~= before.push(*f));
                }
            }
            i = i + 1;
        }
        proof {
            assert(self.rootfile@.take(i as int) =~= self.rootfile@);
        }
        out
    }
}

impl ContainerSpec {
    /// The first EPUB package document, if any.
    pub fn get_first_package(&self) -> (r: Option<&RootFile>)
        ensures
            packages(self.rootfiles.rootfile@).len() == 0 ==> r is None,
            packages(self.rootfiles.rootfile@).len() > 0 ==> r == Some(&packages(self.rootfiles.rootfile@)[0]),
    {
        let all = self.rootfiles.package_iter();
        if all.len() == 0 {
            None
        } else {
            proof {
                assert(derefs(all@)[0] == *all@[0]);
            }
            Some(all[0])
        }
    }
}

/// The directory that holds a path (`Path::parent`), as `std` computes it:
/// `None` for a root or empty path.
pub uninterp spec fn path_parent(path: Seq<char>) -> Option<Seq<char>>;

/// `Path::new(path).parent()`, as a string.
#[verifier::external_body]
fn parent_of(path: &str) -> (r: Option<String>)
    ensures
        r matches Some(p) ==> path_parent(path@) == Some(p@),
        r is None ==> path_parent(path@) is None,
{
    std::path::Path::new(path).parent().map(|p| p.to_string_lossy().into_owned())
}

/// The container document with the directory of its first package.
pub struct Container {
    basedir: String,
    spec: ContainerSpec,
}

impl Container {
    /// The first package's path exists and has a parent, the base directory.
    pub closed spec fn wf(&self) -> bool {
        &&& packages(self.spec.rootfiles.rootfile@).len() > 0
        &&& path_parent(packages(self.spec.rootfiles.rootfile@)[0].full_path@) == Some(self.basedir@)
    }

    /// The parsed container element.
    pub closed spec fn spec_of(&self) -> &ContainerSpec {
        &self.spec
    }

    /// The container for a parsed container element: `None` when it lists no
    /// package document or the first one's path has no parent directory.
    pub fn from_spec(spec: ContainerSpec) -> (r: Option<Container>)
        ensures
            r matches Some(c) ==> c.wf() && c.spec_of() == &spec,
            r is None <==> (packages(spec.rootfiles.rootfile@).len() == 0
                || path_parent(packages(spec.rootfiles.rootfile@)[0].full_path@) is None),
    {
        let first = spec.get_first_package();
        let basedir = match first {
            None => {
                return None;
            },
            Some(f) => parent_of(f.full_path.as_str()),
        };
        match basedir {
            None => None,
            Some(b) => Some(Container { basedir: b, spec }),
        }
    }

    /// The directory of the first package document.
    pub fn basedir(&self) -> (r: &str)
        requires
            self.wf(),
        ensures
            path_parent(packages(self.spec_of().rootfiles.rootfile@)[0].full_path@) == Some(r@),
    {
        self.basedir.as_str()
    }

    /// The path of the first package document.
    pub fn package_path(&self) -> (r: &str)
        requires
            self.wf(),
        ensures
            r@ == packages(self.spec_of().rootfiles.rootfile@)[0].full_path@,
    {
        let first = self.spec.get_first_package();
        match first {
            Some(f) => f.full_path.as_str(),
            None => {
                proof {
                    assert(false);
                }
                ""
            },
        }
    }
}

} // verus!
