//! Names of chapter folders, archives and lock files.

use vstd::prelude::*;
use vstd::string::*;
use crate::text::{process_filename, strip_forbidden, str_eq};

verus! {

/// The parts from which a chapter's file names are built.
#[derive(Debug, Clone)]
pub struct FileName {
    pub manga_name: String,
    /// Volume prefix such as `Vol.1 `, or empty.
    pub vol: String,
    pub chapter_num: String,
    pub title: String,
    /// Folder that receives the archive.
    pub folder: String,
}

/// `<manga> - <vol>Ch.<chapter>[ - <title>]` before clean-up.
pub open spec fn folder_name_raw(f: FileName) -> Seq<char> {
    let base = f.manga_name@ + " - "@ + f.vol@ + "Ch."@ + f.chapter_num@;
    if f.title@.len() != 0 {
        base + " - "@ + f.title@
    } else {
        base
    }
}

/// The chapter's folder name: [`folder_name_raw`] without forbidden characters.
pub open spec fn folder_name(f: FileName) -> Seq<char> {
    strip_forbidden(folder_name_raw(f))
}

impl FileName {
    /// The chapter's folder name, e.g. `Manga - Vol.1 Ch.2 - Title`.
    pub fn get_folder_name(&self) -> (r: String)
        ensures
            r@ == folder_name(*self),
            r@ == strip_forbidden(self.manga_name@) + " - "@ + strip_forbidden(self.vol@) + "Ch."@
                + strip_forbidden(self.chapter_num@) + (if self.title@.len() != 0 {
                " - "@ + strip_forbidden(self.title@)
            } else {
                Seq::<char>::empty()
            }),
    {
        proof {
            crate::laws::law_folder_name_pieces(*self);
        }
        let mut s = self.manga_name.clone();
        s.append(" - ");
        s.append(self.vol.as_str());
        s.append("Ch.");
        s.append(self.chapter_num.as_str());
        if !self.title.as_str().is_empty() {
            s.append(" - ");
            s.append(self.title.as_str());
        }
        process_filename(s.as_str())
    }

    /// Path of the chapter archive: `<folder>/<folder name>.cbz`.
    pub fn get_file_w_folder(&self) -> (r: String)
        ensures
            r@ == self.folder@ + "/"@ + strip_forbidden(folder_name(*self)) + ".cbz"@,
    {
        let name = self.get_folder_name();
        let clean = process_filename(name.as_str());
        let mut s = self.folder.clone();
        s.append("/");
        s.append(clean.as_str());
        s.append(".cbz");
        s
    }

    /// Path of the chapter archive under the working directory `cwd`.
    pub fn get_file_w_folder_w_cwd(&self, cwd: &str) -> (r: String)
        ensures
            r@ == cwd@ + self.folder@ + "/"@ + strip_forbidden(folder_name(*self)) + ".cbz"@,
    {
        let name = self.get_folder_name();
        let clean = process_filename(name.as_str());
        let mut s = String::from_str(cwd);
        s.append(self.folder.as_str());
        s.append("/");
        s.append(clean.as_str());
        s.append(".cbz");
        s
    }

    /// Cache folder of the chapter's images, with a trailing slash.
    pub fn get_folder_w_end(&self) -> (r: String)
        ensures
            r@ == ".cache/"@ + folder_name(*self) + "/"@,
    {
        let name = self.get_folder_name();
        let mut s = String::from_str(".cache/");
        s.append(name.as_str());
        s.append("/");
        s
    }

    /// Cache folder of the chapter's images.
    pub fn get_folder(&self) -> (r: String)
        ensures
            r@ == ".cache/"@ + folder_name(*self),
    {
        let name = self.get_folder_name();
        let mut s = String::from_str(".cache/");
        s.append(name.as_str());
        s
    }

    /// Lock file that marks the chapter as being downloaded.
    pub fn get_lock(&self) -> (r: String)
        ensures
            r@ == ".cache\\"@ + folder_name(*self) + ".lock"@,
    {
        let name = self.get_folder_name();
        let mut s = String::from_str(".cache\\");
        s.append(name.as_str());
        s.append(".lock");
        s
    }
}

/// The folder that receives a manga's chapters: the `--folder` argument without
/// forbidden characters, or the manga's name when that argument is `name`.
pub fn get_folder_name(folder_arg: &str, manga_name: &str) -> (r: String)
    ensures
        r@ == (if strip_forbidden(folder_arg@) == "name"@ { manga_name@ } else { strip_forbidden(folder_arg@) }),
{
    let folder = process_filename(folder_arg);
    if str_eq(folder.as_str(), "name") {
        String::from_str(manga_name)
    } else {
        folder
    }
}

} // verus!
