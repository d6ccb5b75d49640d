//! The local library: which directory and file go with a track, and what the
//! tags of the file do to the track.
//!
//! The library is laid out as artist directories that hold album directories
//! that hold the files. Reading directories and files is left to the caller;
//! this module decides which entries fit and what becomes of the track.

use crate::metadata::{Metadata, MetadataModel};
use crate::pipeline::LookupError;
use crate::pattern::{capture_group, regex_group, regex_replace_all, replace_all};
use crate::text::{contains, has_substring, lowercase, opt_chars, starts_with, str_eq, to_lowercase};
use crate::types::{
    PartialAlbum, PartialArtist, PartialTrack, UnprocessedAlbum, UnprocessedArtist,
    UnprocessedTrack,
};
use vstd::prelude::*;

verus! {

/// The capture group of the pattern for file names that holds the title of
/// the track: the first.
pub const TITLE_GROUP: usize = 1;

/// A rewrite of names before they are compared with the library: every match
/// of the regular expression `from` becomes `to`.
#[derive(Debug, PartialEq, Eq)]
pub struct PathReplaceFilter {
    pub from: String,
    pub to: String,
}

/// `path` after the rewrite of `from` to `to`. A `from` that is no regular
/// expression rewrites nothing.
pub open spec fn rewritten(from: Seq<char>, to: Seq<char>, path: Seq<char>) -> Seq<char> {
    match regex_replace_all(from, path, to) {
        Some(p) => p,
        None => path,
    }
}

/// `path` after all of `filters`, applied in their order.
pub open spec fn rewritten_by_all(filters: Seq<PathReplaceFilter>, path: Seq<char>) -> Seq<char>
    decreases filters.len(),
{
    if filters.len() == 0 {
        path
    } else {
        rewritten(
            filters.last().from@,
            filters.last().to@,
            rewritten_by_all(filters.drop_last(), path),
        )
    }
}

impl Clone for PathReplaceFilter {
    fn clone(&self) -> (r: Self)
        ensures
            r == *self,
    {
        PathReplaceFilter { from: self.from.clone(), to: self.to.clone() }
    }
}

impl PathReplaceFilter {
    /// Rewrites `path`.
    pub fn apply(&self, path: &str) -> (r: String)
        ensures
            r@ == rewritten(self.from@, self.to@, path@),
    {
        match replace_all(self.from.as_str(), path, self.to.as_str()) {
            Some(p) => p,
            None => path.to_owned(),
        }
    }
}

/// Where the library lies and how its files are named.
#[derive(Debug, PartialEq, Eq)]
pub struct MusicLibConfig {
    /// The directory that holds the artist directories.
    pub path: String,
    /// Rewrites of the names of tracks, artists and albums.
    pub path_replacements: Vec<PathReplaceFilter>,
    /// Regular expression for the names of files; its first group is the
    /// title of the track.
    pub file_regex: String,
}

/// How the file of a track is to be found.
#[derive(Debug, PartialEq, Eq)]
pub enum FsLookupPlan {
    /// The file is known: read its tags.
    ReadTags { path: String },
    /// Search the library for directories and a file that fit these names,
    /// which are rewritten and in lowercase; then read the tags of the file.
    Search { name: String, artist: String, album: Option<String> },
}

/// An artist directory fits an artist when its name, in lowercase, is
/// "various artists" or the artist's name, or when one of the two names
/// starts with the other: a track by "A feat. B" is looked for under "A".
pub open spec fn artist_dir_fits(entry: Seq<char>, artist: Seq<char>) -> bool {
    let e = lowercase(entry);
    ||| e == "various artists"@
    ||| e == artist
    ||| e.is_prefix_of(artist)
    ||| artist.is_prefix_of(e)
}

/// An album directory fits an album when its name, in lowercase, is the
/// album's; where no album is looked for, every directory fits.
pub open spec fn album_dir_fits(entry: Seq<char>, album: Option<Seq<char>>) -> bool {
    match album {
        Some(a) => lowercase(entry) == a,
        None => true,
    }
}

/// A file fits a track when its name, in lowercase, holds the track's name
/// and the title that `file_regex` finds in it is, in lowercase, the track's
/// name.
pub open spec fn track_file_fits(file_regex: Seq<char>, entry: Seq<char>, name: Seq<char>) -> bool {
    let e = lowercase(entry);
    &&& has_substring(e, name)
    &&& regex_group(file_regex, e, TITLE_GROUP) matches Some(title) && lowercase(title) == name
}

/// The first path of the first list that is not empty.
pub open spec fn first_path_from(found: Seq<Vec<String>>, from: int) -> Option<Seq<char>>
    decreases found.len() - from,
{
    if from < 0 || from >= found.len() {
        None
    } else if found[from]@.len() > 0 {
        Some(found[from]@[0]@)
    } else {
        first_path_from(found, from + 1)
    }
}

/// What the tags say of the track; where they give no title, the track is
/// called `fallback_name`.
pub open spec fn tagged_track(tags: MetadataModel, fallback_name: Seq<char>) -> PartialTrack {
    PartialTrack {
        name: match tags.track {
            Some(t) => t,
            None => fallback_name,
        },
        catalog_id: tags.mb_track,
        artist: match tags.artist {
            Some(name) => Some(PartialArtist { name, catalog_id: tags.mb_artist }),
            None => None,
        },
        album: match tags.album {
            Some(name) => Some(
                PartialAlbum {
                    name,
                    catalog_id: tags.mb_album,
                    artist: match tags.album_artist {
                        Some(name) => Some(
                            PartialArtist { name, catalog_id: tags.mb_album_artist },
                        ),
                        None => None,
                    },
                },
            ),
            None => None,
        },
        file_path: None,
        beat_timeline: None,
    }
}

/// The file of a track after a search for it: the file that the track knew
/// already; else, for a track with an artist to search under, the file
/// `path` that the search found. A track with neither file nor artist has no
/// file.
pub open spec fn file_of(known: PartialTrack, path: Option<Seq<char>>) -> Option<Seq<char>> {
    match known.file_path {
        Some(file) => Some(file),
        None => if known.artist is None {
            None
        } else {
            path
        },
    }
}

/// The track once its file is found at `path`: the file is recorded, and the
/// tags, if the file has any, are merged with what was known, as the preferred
/// side if `replace` is set.
pub open spec fn located(
    known: PartialTrack,
    path: Seq<char>,
    tags: Option<MetadataModel>,
    fallback_name: Seq<char>,
    replace: bool,
) -> PartialTrack {
    let with_file = PartialTrack { file_path: Some(path), ..known };
    match tags {
        None => with_file,
        Some(t) => if replace {
            tagged_track(t, fallback_name).merge(with_file)
        } else {
            with_file.merge(tagged_track(t, fallback_name))
        },
    }
}

/// Looks tracks up in the local library.
#[derive(Debug)]
pub struct FsLibrarySource {
    config: MusicLibConfig,
}

impl FsLibrarySource {
    /// The configuration that the source was made with.
    pub closed spec fn config(&self) -> MusicLibConfig {
        self.config
    }

    pub fn new(config: MusicLibConfig) -> (r: FsLibrarySource)
        ensures
            r.config() == config,
    {
        FsLibrarySource { config }
    }

    /// The directory that holds the artist directories.
    pub fn root(&self) -> (r: String)
        ensures
            r@ == self.config().path@,
    {
        self.config.path.clone()
    }

    /// Rewrites a name by all the rewrites of the configuration, in their
    /// order.
    pub fn apply_replacements(&self, path: &str) -> (r: String)
        ensures
            r@ == rewritten_by_all(self.config().path_replacements@, path@),
    {
        let filters = &self.config.path_replacements;
        let mut out = path.to_owned();
        let mut i: usize = 0;
        while i < filters.len()
            invariant
                i <= filters@.len(),
                out@ == rewritten_by_all(filters@.take(i as int), path@),
            decreases filters@.len() - i,
        {
            proof {
                assert(filters@.take(i as int + 1).drop_last() =~= filters@.take(i as int));
            }
            out = filters[i].apply(out.as_str());
            i += 1;
        }
        assert(filters@.take(i as int) =~= filters@);
        out
    }

    /// Says how the file of `track` is to be found. A track without a file
    /// and without an artist cannot be found: there is no directory to look
    /// in.
    pub fn plan(&self, track: &UnprocessedTrack) -> (r: Result<FsLookupPlan, LookupError>)
        ensures
            match (track@.file_path, track@.artist) {
                (Some(path), _) => r matches Ok(FsLookupPlan::ReadTags { path: p }) && p@ == path,
                (None, None) => r == Err::<FsLookupPlan, LookupError>(LookupError::NotFound),
                (None, Some(artist)) => r matches Ok(FsLookupPlan::Search { name, artist: a, album })
                    && name@ == lowercase(
                    rewritten_by_all(self.config().path_replacements@, track@.name),
                ) && a@ == lowercase(
                    rewritten_by_all(self.config().path_replacements@, artist.name),
                ) && opt_chars(album) == match track@.album {
                    Some(al) => Some(
                        lowercase(rewritten_by_all(self.config().path_replacements@, al.name)),
                    ),
                    None => None,
                },
            },
    {
        if let Some(path) = &track.file {
            return Ok(FsLookupPlan::ReadTags { path: path.clone() });
        }
        let artist = match &track.artist {
            Some(a) => a,
            None => {
                return Err(LookupError::NotFound);
            },
        };
        let name = to_lowercase(self.apply_replacements(track.name.as_str()).as_str());
        let artist = to_lowercase(self.apply_replacements(artist.name.as_str()).as_str());
        let album = match &track.album {
            Some(al) => Some(to_lowercase(self.apply_replacements(al.name.as_str()).as_str())),
            None => None,
        };
        Ok(FsLookupPlan::Search { name, artist, album })
    }

    /// Whether an entry of a directory is of the kind that is looked for. A
    /// search for files passes over directories, a search for directories
    /// passes over files; an entry that is neither is looked at in both.
    pub fn entry_wanted(is_dir: bool, is_file: bool, find_files: bool) -> (r: bool)
        ensures
            r == (!(is_dir && find_files) && !(is_file && !find_files)),
    {
        if is_dir && find_files {
            return false;
        }
        if is_file && !find_files {
            return false;
        }
        true
    }

    /// Whether the directory `entry` may hold the tracks of `artist`, a
    /// name from a search plan.
    pub fn artist_dir_matches(entry: &str, artist: &str) -> (r: bool)
        ensures
            r == artist_dir_fits(entry@, artist@),
    {
        let e = to_lowercase(entry);
        str_eq(e.as_str(), "various artists") || str_eq(e.as_str(), artist) || starts_with(
            artist,
            e.as_str(),
        ) || starts_with(e.as_str(), artist)
    }

    /// Whether the directory `entry` is that of `album`, a name from a search
    /// plan.
    pub fn album_dir_matches(entry: &str, album: &Option<String>) -> (r: bool)
        ensures
            r == album_dir_fits(entry@, opt_chars(*album)),
    {
        match album {
            Some(a) => {
                let e = to_lowercase(entry);
                str_eq(e.as_str(), a.as_str())
            },
            None => true,
        }
    }

    /// Whether the file `entry` is that of the track `name`, a name from a
    /// search plan.
    pub fn track_file_matches(&self, entry: &str, name: &str) -> (r: bool)
        ensures
            r == track_file_fits(self.config().file_regex@, entry@, name@),
    {
        let e = to_lowercase(entry);
        // the cheap test first
        if !contains(e.as_str(), name) {
            return false;
        }
        match capture_group(self.config.file_regex.as_str(), e.as_str(), TITLE_GROUP) {
            Some(title) => {
                let t = to_lowercase(title.as_str());
                str_eq(t.as_str(), name)
            },
            None => false,
        }
    }

    /// The file to take among those that a search found: `found` holds, for
    /// each album directory that was searched, the paths of the files that
    /// fit, and the first path of all is taken.
    pub fn first_match(found: &Vec<Vec<String>>) -> (r: Option<String>)
        ensures
            opt_chars(r) == first_path_from(found@, 0),
    {
        let mut i: usize = 0;
        while i < found.len()
            invariant
                i <= found@.len(),
                first_path_from(found@, 0) == first_path_from(found@, i as int),
            decreases found@.len() - i,
        {
            if found[i].len() > 0 {
                return Some(found[i][0].clone());
            }
            i += 1;
        }
        None
    }

    /// The name that a track goes by where the tags of its file give no
    /// title: its own name, rewritten.
    pub open spec fn fallback_name(&self, track: PartialTrack) -> Seq<char> {
        rewritten_by_all(self.config().path_replacements@, track.name)
    }

    /// The track after the search for its file. `path` is the file that the
    /// search found, `None` if it found none; `tags` is what was read from
    /// the file, `None` if it could not be read. A track that knows its file
    /// keeps it, whatever `path` says. A track with neither file nor artist
    /// is not found: there was no directory to search. Without a file the
    /// lookup fails.
    pub fn lookup_track(
        &self,
        track: UnprocessedTrack,
        path: Option<String>,
        tags: Option<Metadata>,
        replace: bool,
    ) -> (r: Result<UnprocessedTrack, LookupError>)
        ensures
            match file_of(track@, opt_chars(path)) {
                Some(p) => r matches Ok(t) && t@ == located(
                    track@,
                    p,
                    match tags {
                        Some(m) => Some(m@),
                        None => None,
                    },
                    self.fallback_name(track@),
                    replace,
                ),
                None => r == Err::<UnprocessedTrack, LookupError>(LookupError::NotFound),
            },
    {
        let path = match &track.file {
            Some(known) => known.clone(),
            None => {
                if track.artist.is_none() {
                    return Err(LookupError::NotFound);
                }
                match path {
                    Some(p) => p,
                    None => {
                        return Err(LookupError::NotFound);
                    },
                }
            },
        };
        let name = self.apply_replacements(track.name.as_str());
        let mut track = track;
        track.file = Some(path);
        let metadata = match tags {
            Some(m) => m,
            None => {
                return Ok(track);
            },
        };
        let artist = match metadata.artist {
            Some(name) => Some(UnprocessedArtist { mbid: metadata.mb_artist, name }),
            None => None,
        };
        let album = match metadata.album {
            Some(name) => Some(
                UnprocessedAlbum {
                    mbid: metadata.mb_album,
                    name,
                    artist: match metadata.album_artist {
                        Some(name) => Some(
                            UnprocessedArtist { mbid: metadata.mb_album_artist, name },
                        ),
                        None => None,
                    },
                },
            ),
            None => None,
        };
        let metadata_track = UnprocessedTrack {
            name: match metadata.track {
                Some(t) => t,
                None => name,
            },
            mbid: metadata.mb_track,
            album,
            artist,
            beatevents: None,
            file: None,
        };
        if replace {
            Ok(metadata_track.merge(track))
        } else {
            Ok(track.merge(metadata_track))
        }
    }
}

} // verus!
