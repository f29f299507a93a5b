//! What the application shows of a track, and where it writes a comment:
//! the choice among the tags that an audio file holds.
//!
//! A file can hold several tags, of different types. Which of them is read,
//! and which are written, goes by the extension of the file first and by
//! the primary tag of its format second. The tags themselves are read and
//! written by the tag store; here a file is what the store found in it.

use vstd::prelude::*;
use crate::text::{chars_of, push_char, same_text, text_of, to_uppercase, uppercased};

verus! {

/// The types of tag.
#[derive(Clone, Copy, Debug, PartialEq, Eq, Structural)]
pub enum TagType {
    Ape,
    Id3v1,
    Id3v2,
    Mp4Ilst,
    VorbisComments,
    RiffInfo,
    AiffText,
}

/// What a picture shows, as far as the application tells pictures apart.
#[derive(Clone, Copy, Debug, PartialEq, Eq, Structural)]
pub enum PictureType {
    CoverFront,
    Other,
    /// Anything but the front cover and the unspecified.
    Different,
}

/// A picture held by a tag.
#[derive(Clone, Debug, PartialEq, Eq)]
pub struct Picture {
    pub pic_type: PictureType,
    /// The media type of the picture, where the tag names one.
    pub mime_type: Option<String>,
    pub data: Vec<u8>,
}

/// What the application reads of a tag.
#[derive(Clone, Debug, PartialEq, Eq)]
pub struct Tag {
    pub tag_type: TagType,
    pub title: Option<String>,
    pub artist: Option<String>,
    pub genre: Option<String>,
    pub comment: Option<String>,
    pub pictures: Vec<Picture>,
}

/// What the tag store found in a file.
#[derive(Clone, Debug, PartialEq, Eq)]
pub struct TaggedFile {
    /// The type of tag that the format of the file uses first.
    pub primary_type: TagType,
    /// The types of tag that the format of the file can hold.
    pub supported: Vec<TagType>,
    /// The tags of the file, in the order of the store.
    pub tags: Vec<Tag>,
}

/// What the application shows of a track.
#[derive(Clone, Debug, PartialEq, Eq)]
pub struct TrackMeta {
    pub path: String,
    pub file_name: String,
    pub title: Option<String>,
    pub artists: Vec<String>,
    pub genre: Option<String>,
    pub comment: String,
    pub picture_data_url: Option<String>,
    pub format: Option<String>,
}

/// `c` in lower case where it is an ASCII capital, `c` itself otherwise.
pub open spec fn ascii_lower_char(c: char) -> char {
    if 'A' <= c && c <= 'Z' {
        ((c as u8) + 32) as char
    } else {
        c
    }
}

/// `s` with its ASCII capitals in lower case.
pub open spec fn ascii_lowered(s: Seq<char>) -> Seq<char> {
    Seq::new(s.len(), |i: int| ascii_lower_char(s[i]))
}

/// `s` with its ASCII capitals in lower case.
pub fn ascii_lowercase(s: &str) -> (lower: String)
    ensures
        lower@ == ascii_lowered(s@),
{
    let chars = chars_of(s);
    let mut lower = String::new();
    let mut i: usize = 0;
    while i < chars.len()
        invariant
            i <= chars.len(),
            chars@ == s@,
            lower@ == ascii_lowered(s@).take(i as int),
        decreases chars.len() - i,
    {
        let c = chars[i];
        let l: char = if c >= 'A' && c <= 'Z' {
            ((c as u8) + 32) as char
        } else {
            c
        };
        push_char(&mut lower, l);
        i += 1;
    }
    lower
}

/// The types of tag that count for a file with the extension `ext`, in
/// lower case already, the one that counts most first. No type counts for
/// an extension that is not known.
pub open spec fn tag_order(ext: Seq<char>) -> Seq<TagType> {
    if ext == "mp3"@ || ext == "aif"@ || ext == "aiff"@ {
        seq![TagType::Id3v2]
    } else if ext == "flac"@ {
        seq![TagType::VorbisComments]
    } else if ext == "m4a"@ || ext == "mp4"@ || ext == "alac"@ {
        seq![TagType::Mp4Ilst]
    } else if ext == "wav"@ {
        seq![TagType::RiffInfo, TagType::Id3v2]
    } else {
        Seq::empty()
    }
}

/// The types of tag that count for a file with the extension `ext`, of
/// whatever case.
pub fn preferred_tag_types(ext: &str) -> (order: Vec<TagType>)
    ensures
        order@ == tag_order(ascii_lowered(ext@)),
{
    let lower = ascii_lowercase(ext);
    let e = lower.as_str();
    if same_text(e, "mp3") || same_text(e, "aif") || same_text(e, "aiff") {
        vec![TagType::Id3v2]
    } else if same_text(e, "flac") {
        vec![TagType::VorbisComments]
    } else if same_text(e, "m4a") || same_text(e, "mp4") || same_text(e, "alac") {
        vec![TagType::Mp4Ilst]
    } else if same_text(e, "wav") {
        vec![TagType::RiffInfo, TagType::Id3v2]
    } else {
        Vec::new()
    }
}

impl TaggedFile {
    /// The index of the first tag of type `tag_type` among `self.tags[from..]`.
    pub open spec fn tag_index_from(&self, tag_type: TagType, from: int) -> Option<int>
        decreases self.tags.len() - from,
    {
        if from < 0 || from >= self.tags.len() {
            None
        } else if self.tags[from].tag_type == tag_type {
            Some(from)
        } else {
            self.tag_index_from(tag_type, from + 1)
        }
    }

    /// The index of the first tag of type `tag_type`.
    pub open spec fn tag_index(&self, tag_type: TagType) -> Option<int> {
        self.tag_index_from(tag_type, 0)
    }

    /// The index of the tag that counts most: the first tag of the first
    /// type of `order` that the file has a tag of.
    pub open spec fn first_tag_of(&self, order: Seq<TagType>) -> Option<int>
        decreases order.len(),
    {
        if order.len() == 0 {
            None
        } else {
            match self.tag_index(order[0]) {
                Some(i) => Some(i),
                None => self.first_tag_of(order.drop_first()),
            }
        }
    }

    /// The index of the tag whose fields are shown: the one that counts most
    /// by `order`, and the primary tag where none counts.
    pub open spec fn preferred_tag(&self, order: Seq<TagType>) -> Option<int> {
        match self.first_tag_of(order) {
            Some(i) => Some(i),
            None => self.tag_index(self.primary_type),
        }
    }

    /// The comment of the first type of `order` whose tag has one.
    pub open spec fn first_comment_of(&self, order: Seq<TagType>) -> Option<Seq<char>>
        decreases order.len(),
    {
        if order.len() == 0 {
            None
        } else {
            match self.tag_index(order[0]) {
                Some(i) if self.tags[i].comment is Some => Some(self.tags[i].comment->0@),
                _ => self.first_comment_of(order.drop_first()),
            }
        }
    }

    /// The comment that is shown: the first one found by `order`, the one of
    /// the primary tag where none is found, and the empty text where that
    /// has none either.
    pub open spec fn shown_comment(&self, order: Seq<TagType>) -> Seq<char> {
        match self.first_comment_of(order) {
            Some(c) => c,
            None => match self.tag_index(self.primary_type) {
                Some(i) if self.tags[i].comment is Some => self.tags[i].comment->0@,
                _ => Seq::empty(),
            },
        }
    }

    /// Whether the file has a tag of type `tag_type` or can be given one.
    pub open spec fn can_hold(&self, tag_type: TagType) -> bool {
        self.tag_index(tag_type) is Some || self.supported@.contains(tag_type)
    }

    /// The types of `order` that the file can hold, in their order.
    pub open spec fn holdable(&self, order: Seq<TagType>) -> Seq<TagType>
        decreases order.len(),
    {
        if order.len() == 0 {
            Seq::empty()
        } else if self.can_hold(order.last()) {
            self.holdable(order.drop_last()).push(order.last())
        } else {
            self.holdable(order.drop_last())
        }
    }

    /// The types of the tags that a comment is written to: the types of
    /// `order` that the file can hold, and the primary type where there is
    /// none of those and the file can hold that.
    pub open spec fn comment_types(&self, order: Seq<TagType>) -> Seq<TagType> {
        let wanted = self.holdable(order);
        if wanted.len() > 0 {
            wanted
        } else if self.can_hold(self.primary_type) {
            seq![self.primary_type]
        } else {
            Seq::empty()
        }
    }

    /// Finds the first tag of type `tag_type`.
    pub fn find_tag(&self, tag_type: TagType) -> (found: Option<usize>)
        ensures
            match found {
                Some(i) => self.tag_index(tag_type) == Some(i as int) && i < self.tags.len(),
                None => self.tag_index(tag_type) is None,
            },
    {
        let mut i: usize = 0;
        while i < self.tags.len()
            invariant
                i <= self.tags.len(),
                self.tag_index(tag_type) == self.tag_index_from(tag_type, i as int),
            decreases self.tags.len() - i,
        {
            if self.tags[i].tag_type == tag_type {
                return Some(i);
            }
            i += 1;
        }
        None
    }

    /// Finds the tag whose fields are shown.
    pub fn find_preferred_tag(&self, order: &Vec<TagType>) -> (found: Option<usize>)
        ensures
            match found {
                Some(i) => self.preferred_tag(order@) == Some(i as int) && i < self.tags.len(),
                None => self.preferred_tag(order@) is None,
            },
    {
        let mut k: usize = 0;
        assert(order@.skip(0) =~= order@);
        while k < order.len()
            invariant
                k <= order.len(),
                self.first_tag_of(order@) == self.first_tag_of(order@.skip(k as int)),
            decreases order.len() - k,
        {
            assert(order@.skip(k as int).drop_first() =~= order@.skip(k + 1));
            match self.find_tag(order[k]) {
                Some(i) => {
                    return Some(i);
                },
                None => {},
            }
            k += 1;
        }
        self.find_tag(self.primary_type)
    }

    /// Finds the comment that is shown.
    pub fn find_comment(&self, order: &Vec<TagType>) -> (comment: String)
        ensures
            comment@ == self.shown_comment(order@),
    {
        let mut k: usize = 0;
        assert(order@.skip(0) =~= order@);
        while k < order.len()
            invariant
                k <= order.len(),
                self.first_comment_of(order@) == self.first_comment_of(order@.skip(k as int)),
            decreases order.len() - k,
        {
            assert(order@.skip(k as int).drop_first() =~= order@.skip(k + 1));
            match self.find_tag(order[k]) {
                Some(i) => match &self.tags[i].comment {
                    Some(c) => {
                        return c.clone();
                    },
                    None => {},
                },
                None => {},
            }
            k += 1;
        }
        match self.find_tag(self.primary_type) {
            Some(i) => match &self.tags[i].comment {
                Some(c) => c.clone(),
                None => String::new(),
            },
            None => String::new(),
        }
    }

    /// Tests whether the file has a tag of type `tag_type` or can be given one.
    pub fn holds(&self, tag_type: TagType) -> (can: bool)
        ensures
            can == self.can_hold(tag_type),
    {
        match self.find_tag(tag_type) {
            Some(_) => true,
            None => {
                let mut i: usize = 0;
                while i < self.supported.len()
                    invariant
                        i <= self.supported.len(),
                        forall|j: int| 0 <= j < i ==> self.supported@[j] != tag_type,
                    decreases self.supported.len() - i,
                {
                    if self.supported[i] == tag_type {
                        return true;
                    }
                    i += 1;
                }
                false
            },
        }
    }
}

/// The types of the tags that a comment is written to, for a file with the
/// extension `ext`. The store makes each tag that the file lacks, sets the
/// comment of each, and saves the file.
pub fn comment_targets(file: &TaggedFile, ext: &str) -> (targets: Vec<TagType>)
    ensures
        targets@ == file.comment_types(tag_order(ascii_lowered(ext@))),
{
    let order = preferred_tag_types(ext);
    let mut targets: Vec<TagType> = Vec::new();
    let mut k: usize = 0;
    while k < order.len()
        invariant
            k <= order.len(),
            targets@ == file.holdable(order@.take(k as int)),
        decreases order.len() - k,
    {
        assert(order@.take(k + 1).drop_last() =~= order@.take(k as int));
        if file.holds(order[k]) {
            targets.push(order[k]);
        }
        k += 1;
    }
    assert(order@.take(order.len() as int) =~= order@);
    if targets.len() == 0 && file.holds(file.primary_type) {
        targets.push(file.primary_type);
    }
    targets
}

/// The text of `data` in base64, with the standard alphabet and padded.
pub uninterp spec fn base64_standard(data: Seq<u8>) -> Seq<char>;

/// `Engine::encode` of the engine `general_purpose::STANDARD` of base64.
/// It panics where the length of the text can not be counted, which takes
/// more bytes than a vector holds.
#[verifier::external_body]
fn base64_encode(data: &Vec<u8>) -> (text: String)
    requires
        data.len() <= isize::MAX,
    ensures
        text@ == base64_standard(data@),
{
    base64::Engine::encode(&base64::engine::general_purpose::STANDARD, data)
}

/// The `data:` URL of content of the type `mime` whose base64 text is `encoded`.
pub open spec fn data_url(mime: Seq<char>, encoded: Seq<char>) -> Seq<char> {
    "data:"@ + mime + ";base64,"@ + encoded
}

/// Writes the `data:` URL of content of the type `mime` whose base64 text
/// is `encoded`.
pub fn data_url_of(mime: &str, encoded: &str) -> (url: String)
    ensures
        url@ == data_url(mime@, encoded@),
{
    let mut url = String::new();
    url.append("data:");
    url.append(mime);
    url.append(";base64,");
    url.append(encoded);
    url
}

impl Picture {
    /// Whether the picture can be shown for the track: whether it is the
    /// front cover or of no stated kind.
    pub open spec fn is_cover(&self) -> bool {
        self.pic_type == PictureType::CoverFront || self.pic_type == PictureType::Other
    }

    /// The media type of the picture; JPEG where the tag names none.
    pub open spec fn media_type(&self) -> Seq<char> {
        match self.mime_type {
            Some(m) => m@,
            None => "image/jpeg"@,
        }
    }

    /// The `data:` URL of the picture; `None` for a picture of more bytes
    /// than can be encoded.
    pub open spec fn url(&self) -> Option<Seq<char>> {
        if self.data.len() <= isize::MAX {
            Some(data_url(self.media_type(), base64_standard(self.data@)))
        } else {
            None
        }
    }

    /// Writes the `data:` URL of the picture.
    pub fn to_data_url(&self) -> (url: Option<String>)
        ensures
            text_of(url) == self.url(),
    {
        if self.data.len() <= isize::MAX as usize {
            let encoded = base64_encode(&self.data);
            match &self.mime_type {
                Some(m) => Some(data_url_of(m.as_str(), encoded.as_str())),
                None => Some(data_url_of("image/jpeg", encoded.as_str())),
            }
        } else {
            None
        }
    }
}

/// The index of the first of `pictures[from..]` that can be shown for the track.
pub open spec fn first_cover_from(pictures: Seq<Picture>, from: int) -> Option<int>
    decreases pictures.len() - from,
{
    if from < 0 || from >= pictures.len() {
        None
    } else if pictures[from].is_cover() {
        Some(from)
    } else {
        first_cover_from(pictures, from + 1)
    }
}

/// The picture shown for a track, as a `data:` URL: the first picture of
/// the primary tag that is the front cover or of no stated kind.
pub open spec fn cover_url(file: &TaggedFile) -> Option<Seq<char>> {
    match file.tag_index(file.primary_type) {
        None => None,
        Some(t) => match first_cover_from(file.tags[t].pictures@, 0) {
            None => None,
            Some(i) => file.tags[t].pictures[i].url(),
        },
    }
}

/// Finds the picture shown for a track and writes it as a `data:` URL.
pub fn read_picture_data_url(file: &TaggedFile) -> (url: Option<String>)
    ensures
        text_of(url) == cover_url(file),
{
    match file.find_tag(file.primary_type) {
        None => None,
        Some(t) => {
            let pictures = &file.tags[t].pictures;
            let mut i: usize = 0;
            while i < pictures.len()
                invariant
                    i <= pictures.len(),
                    file.tag_index(file.primary_type) == Some(t as int),
                    t < file.tags.len(),
                    pictures@ == file.tags[t as int].pictures@,
                    first_cover_from(pictures@, 0) == first_cover_from(pictures@, i as int),
                decreases pictures.len() - i,
            {
                match pictures[i].pic_type {
                    PictureType::CoverFront | PictureType::Other => {
                        return pictures[i].to_data_url();
                    },
                    PictureType::Different => {},
                }
                i += 1;
            }
            None
        },
    }
}

/// What a track shows, as text.
pub struct TrackModel {
    pub path: Seq<char>,
    pub file_name: Seq<char>,
    pub title: Option<Seq<char>>,
    pub artists: Seq<Seq<char>>,
    pub genre: Option<Seq<char>>,
    pub comment: Seq<char>,
    pub picture_data_url: Option<Seq<char>>,
    pub format: Option<Seq<char>>,
}

impl View for TrackMeta {
    type V = TrackModel;

    open spec fn view(&self) -> TrackModel {
        TrackModel {
            path: self.path@,
            file_name: self.file_name@,
            title: text_of(self.title),
            artists: Seq::new(self.artists@.len(), |i: int| self.artists@[i]@),
            genre: text_of(self.genre),
            comment: self.comment@,
            picture_data_url: text_of(self.picture_data_url),
            format: text_of(self.format),
        }
    }
}

/// What is shown of the track at `path`. `file_name` is the last part of
/// the path and `ext` its extension, each `None` where the path has none.
///
/// Title, artist and genre are those of the tag that counts most for the
/// extension. The comment is looked for in every tag that counts. The
/// format is the extension in upper case.
pub open spec fn shown_track(
    path: Seq<char>,
    file_name: Option<Seq<char>>,
    ext: Option<Seq<char>>,
    file: &TaggedFile,
) -> TrackModel {
    let order = tag_order(
        ascii_lowered(
            match ext {
                Some(e) => e,
                None => Seq::empty(),
            },
        ),
    );
    let shown = file.preferred_tag(order);
    TrackModel {
        path,
        file_name: match file_name {
            Some(name) => name,
            None => path,
        },
        title: match shown {
            Some(i) => text_of(file.tags[i].title),
            None => None,
        },
        artists: match shown {
            Some(i) if file.tags[i].artist is Some => seq![file.tags[i].artist->0@],
            _ => Seq::empty(),
        },
        genre: match shown {
            Some(i) => text_of(file.tags[i].genre),
            None => None,
        },
        comment: file.shown_comment(order),
        picture_data_url: cover_url(file),
        format: match ext {
            Some(e) => Some(uppercased(e)),
            None => None,
        },
    }
}

/// A copy of an optional text.
pub fn copy_text(text: &Option<String>) -> (copy: Option<String>)
    ensures
        text_of(copy) == text_of(*text),
{
    match text {
        Some(t) => Some(t.clone()),
        None => None,
    }
}

/// Gathers what is shown of the track at `path` from what the tag store
/// found in the file. `file_name` is the last part of the path and `ext`
/// its extension, each `None` where the path has none.
pub fn read_metadata(path: &str, file_name: Option<&str>, ext: Option<&str>, file: &TaggedFile) -> (meta:
    TrackMeta)
    ensures
        meta@ == shown_track(
            path@,
            match file_name {
                Some(name) => Some(name@),
                None => None,
            },
            match ext {
                Some(e) => Some(e@),
                None => None,
            },
            file,
        ),
{
    let order = match ext {
        Some(e) => preferred_tag_types(e),
        None => preferred_tag_types(""),
    };
    proof {
        reveal_strlit("");
        assert(""@ =~= Seq::<char>::empty());
    }
    let shown = file.find_preferred_tag(&order);
    let mut artists: Vec<String> = Vec::new();
    let title = match shown {
        Some(i) => copy_text(&file.tags[i].title),
        None => None,
    };
    match shown {
        Some(i) => match &file.tags[i].artist {
            Some(a) => {
                artists.push(a.clone());
            },
            None => {},
        },
        None => {},
    }
    let genre = match shown {
        Some(i) => copy_text(&file.tags[i].genre),
        None => None,
    };
    let comment = file.find_comment(&order);
    let picture_data_url = read_picture_data_url(file);
    let format = match ext {
        Some(e) => Some(to_uppercase(e)),
        None => None,
    };
    let meta = TrackMeta {
        path: path.to_owned(),
        file_name: match file_name {
            Some(name) => name.to_owned(),
            None => path.to_owned(),
        },
        title,
        artists,
        genre,
        comment,
        picture_data_url,
        format,
    };
    proof {
        let model = shown_track(
            path@,
            match file_name {
                Some(name) => Some(name@),
                None => None,
            },
            match ext {
                Some(e) => Some(e@),
                None => None,
            },
            file,
        );
        assert(meta@.artists =~= model.artists);
    }
    meta
}

} // verus!
