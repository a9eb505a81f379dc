//! Attachments of messages: their kind, their flags, their names, and what a downloaded
//! attachment becomes.
use vstd::prelude::*;

use crate::content::AttachmentPointer;
use crate::core_model::opt_view;
use crate::text::{
    find_last, last_index_of, lemma_last_index_of, owned, starts_with, str_eq, str_starts_with,
    sub_string,
};

verus! {

/// The kind of an attachment.
#[derive(Clone, Copy, Debug, PartialEq, Eq, Structural)]
pub enum AttachmentType {
    Image,
    Video,
    Audio,
    Gif,
    File,
}

/// The flags of an attachment.
#[derive(Clone, Copy, Debug, PartialEq, Eq, Structural)]
pub enum Flags {
    VoiceMessage,
    Borderless,
    Gif,
    NoFlags,
}

/// The kind of an attachment with the given content type: a GIF for `image/gif...`, an image
/// for any other `image/...`, a video for `video/...`, audio for `audio/...`, a file otherwise.
pub open spec fn type_of_content(content: Seq<char>) -> AttachmentType {
    if starts_with(content, "image/gif"@) {
        AttachmentType::Gif
    } else if starts_with(content, "image/"@) {
        AttachmentType::Image
    } else if starts_with(content, "video/"@) {
        AttachmentType::Video
    } else if starts_with(content, "audio/"@) {
        AttachmentType::Audio
    } else {
        AttachmentType::File
    }
}

/// The numbers that name flags: 0, 1, 2 and 4.
pub open spec fn is_flags_number(n: u32) -> bool {
    n == 0 || n == 1 || n == 2 || n == 4
}

/// The flags that a number names: 0 none, 1 a voice message, 2 borderless, 4 a GIF.
pub open spec fn flags_of(n: u32) -> Flags {
    if n == 1 {
        Flags::VoiceMessage
    } else if n == 2 {
        Flags::Borderless
    } else if n == 4 {
        Flags::Gif
    } else {
        Flags::NoFlags
    }
}

impl AttachmentType {
    /// The kind of an attachment with the given content type (see [type_of_content]).
    pub fn from_content_type(content: &str) -> (r: Self)
        ensures
            r == type_of_content(content@),
    {
        if str_starts_with(content, "image/gif") {
            AttachmentType::Gif
        } else if str_starts_with(content, "image/") {
            AttachmentType::Image
        } else if str_starts_with(content, "video/") {
            AttachmentType::Video
        } else if str_starts_with(content, "audio/") {
            AttachmentType::Audio
        } else {
            AttachmentType::File
        }
    }
}

impl Flags {
    /// The flags that a number names (see [flags_of]); only 0, 1, 2 and 4 name flags.
    pub fn from_number(n: u32) -> (r: Self)
        requires
            is_flags_number(n),
        ensures
            r == flags_of(n),
    {
        if n == 1 {
            Flags::VoiceMessage
        } else if n == 2 {
            Flags::Borderless
        } else if n == 4 {
            Flags::Gif
        } else {
            Flags::NoFlags
        }
    }
}

/// The content type that the client uses for an attachment pointer: `image/webp` where the
/// pointer gives an empty one (stickers come so), else the pointer's.
pub open spec fn fixed_content_type(ct: Option<String>) -> Option<Seq<char>> {
    match ct {
        Some(t) => if t@.len() == 0 {
            Some("image/webp"@)
        } else {
            Some(t@)
        },
        None => None,
    }
}

/// The name of an attachment that has none: `image.`, `video.` or `audio.` followed by the
/// subtype for those content types, else `file`.
pub open spec fn default_name(ct: Option<Seq<char>>) -> Seq<char> {
    match ct {
        Some(t) => if starts_with(t, "image/"@) {
            "image."@ + t.skip(6)
        } else if starts_with(t, "video/"@) {
            "video."@ + t.skip(6)
        } else if starts_with(t, "audio/"@) {
            "audio."@ + t.skip(6)
        } else {
            "file"@
        },
        None => "file"@,
    }
}

/// The kind of an attachment with an optional content type: a file where there is none.
pub open spec fn type_of(ct: Option<Seq<char>>) -> AttachmentType {
    match ct {
        Some(t) => type_of_content(t),
        None => AttachmentType::File,
    }
}

/// An attachment of a message.
#[derive(Debug)]
pub struct Attachment {
    pub name: Option<String>,
    pub size: u32,
    pub width: u32,
    pub height: u32,
    pub blur_hash: Option<String>,
    pub content_type: Option<String>,
    /// Whether the attachment's data is there.
    pub loaded: bool,
    /// The pointer on the server, for an attachment that was received.
    pub pointer: Option<AttachmentPointer>,
}

/// What a downloaded attachment is shown as.
#[derive(Clone, Copy, Debug, PartialEq, Eq, Structural)]
pub enum MediaKind {
    Image,
    Video,
    Audio,
    /// It is only kept as a file.
    Other,
}

/// What a downloaded attachment of the given content type is shown as: an image, a video or
/// audio by the top-level type; nothing else.
pub open spec fn media_kind_of(ct: Option<Seq<char>>) -> MediaKind {
    match ct {
        Some(t) => if starts_with(t, "image/"@) {
            MediaKind::Image
        } else if starts_with(t, "video/"@) {
            MediaKind::Video
        } else if starts_with(t, "audio/"@) {
            MediaKind::Audio
        } else {
            MediaKind::Other
        },
        None => MediaKind::Other,
    }
}

/// The extension of a file name, as a path has it: what follows the last dot, where that dot
/// is not the first character.
pub open spec fn extension_of(name: Seq<char>) -> Option<Seq<char>> {
    let i = last_index_of(name, '.');
    if i >= 1 {
        Some(name.subrange(i + 1, name.len() as int))
    } else {
        None
    }
}

/// The content type of a file to send: `image/png` for a file with the extension `png`, else the
/// guessed one.
pub open spec fn file_content_type(basename: Option<Seq<char>>, guessed: Seq<char>) -> Seq<char> {
    if basename matches Some(b) && extension_of(b) == Some("png"@) {
        "image/png"@
    } else {
        guessed
    }
}

/// The content type that the client uses for a pointer's content type (see
/// [fixed_content_type]).
fn fix_content_type(ct: &Option<String>) -> (r: Option<String>)
    ensures
        match r {
            Some(s) => fixed_content_type(*ct) == Some(s@),
            None => fixed_content_type(*ct) is None,
        },
{
    match ct {
        Some(t) => if t.unicode_len() == 0 {
            proof {
                reveal_strlit("image/webp");
            }
            Some(owned("image/webp"))
        } else {
            Some(owned(t.as_str()))
        },
        None => None,
    }
}

/// The name of an attachment that has none (see [default_name]).
pub fn default_attachment_name(ct: &Option<String>) -> (r: String)
    ensures
        r@ == default_name(
            match ct {
                Some(t) => Some(t@),
                None => None,
            },
        ),
{
    proof {
        reveal_strlit("image/");
        reveal_strlit("video/");
        reveal_strlit("audio/");
        reveal_strlit("image.");
        reveal_strlit("video.");
        reveal_strlit("audio.");
        reveal_strlit("file");
    }
    match ct {
        Some(t) => {
            let t = t.as_str();
            let n = t.unicode_len();
            let prefix = if str_starts_with(t, "image/") {
                "image."
            } else if str_starts_with(t, "video/") {
                "video."
            } else if str_starts_with(t, "audio/") {
                "audio."
            } else {
                return owned("file");
            };
            let mut s = owned(prefix);
            let rest = sub_string(t, 6, n);
            s.append(rest.as_str());
            assert(t@.skip(6) =~= t@.subrange(6, n as int));
            s
        },
        None => owned("file"),
    }
}

impl Attachment {
    /// The kind of the attachment (see [type_of]).
    pub open spec fn spec_type(&self) -> AttachmentType {
        type_of(
            match self.content_type {
                Some(t) => Some(t@),
                None => None,
            },
        )
    }

    /// An attachment that was received, not downloaded yet: its content type is the
    /// [fixed](fixed_content_type) one of the pointer, its name the pointer's or the
    /// [default](default_name) one, its size and dimensions the pointer's (0 where it gives
    /// none), its blur hash the pointer's.
    pub fn from_pointer(pointer: &AttachmentPointer) -> (r: Self)
        ensures
            opt_view(r.content_type) == fixed_content_type(pointer.content_type),
            r.name matches Some(n) && n@ == match pointer.file_name {
                Some(f) => f@,
                None => default_name(fixed_content_type(pointer.content_type)),
            },
            r.size == match pointer.size {
                Some(s) => s,
                None => 0,
            },
            r.width == match pointer.width {
                Some(w) => w,
                None => 0,
            },
            r.height == match pointer.height {
                Some(h) => h,
                None => 0,
            },
            r.blur_hash == pointer.blur_hash,
            !r.loaded,
            r.pointer matches Some(p) && p == (AttachmentPointer {
                content_type: p.content_type,
                ..*pointer
            }) && opt_view(p.content_type) == fixed_content_type(pointer.content_type),
    {
        let content_type = fix_content_type(&pointer.content_type);
        let name = match &pointer.file_name {
            Some(f) => owned(f.as_str()),
            None => default_attachment_name(&content_type),
        };
        let mut p = pointer.clone();
        p.content_type = fix_content_type(&pointer.content_type);
        Attachment {
            name: Some(name),
            size: match pointer.size {
                Some(s) => s,
                None => 0,
            },
            width: match pointer.width {
                Some(w) => w,
                None => 0,
            },
            height: match pointer.height {
                Some(h) => h,
                None => 0,
            },
            blur_hash: pointer.blur_hash.clone(),
            content_type,
            loaded: false,
            pointer: Some(p),
        }
    }

    /// The kind of the attachment (see [type_of]).
    pub fn attachment_type(&self) -> (r: AttachmentType)
        ensures
            r == self.spec_type(),
    {
        match &self.content_type {
            Some(t) => AttachmentType::from_content_type(t.as_str()),
            None => AttachmentType::File,
        }
    }

    /// Whether the attachment is an image.
    pub fn is_image(&self) -> (r: bool)
        ensures
            r == (self.spec_type() == AttachmentType::Image),
    {
        self.attachment_type() == AttachmentType::Image
    }

    /// Whether the attachment is a video.
    pub fn is_video(&self) -> (r: bool)
        ensures
            r == (self.spec_type() == AttachmentType::Video),
    {
        self.attachment_type() == AttachmentType::Video
    }

    /// Whether the attachment is a GIF.
    pub fn is_gif(&self) -> (r: bool)
        ensures
            r == (self.spec_type() == AttachmentType::Gif),
    {
        self.attachment_type() == AttachmentType::Gif
    }

    /// Whether the attachment is audio.
    pub fn is_audio(&self) -> (r: bool)
        ensures
            r == (self.spec_type() == AttachmentType::Audio),
    {
        self.attachment_type() == AttachmentType::Audio
    }

    /// Whether the attachment is some other file.
    pub fn is_file(&self) -> (r: bool)
        ensures
            r == (self.spec_type() == AttachmentType::File),
    {
        self.attachment_type() == AttachmentType::File
    }

    /// The flags of a received attachment: those that the pointer's number names (0 where it
    /// gives none).
    pub fn flags(&self) -> (r: Flags)
        requires
            self.pointer is Some,
            is_flags_number(
                match self.pointer->0.flags {
                    Some(f) => f,
                    None => 0,
                },
            ),
        ensures
            r == flags_of(
                match self.pointer->0.flags {
                    Some(f) => f,
                    None => 0,
                },
            ),
    {
        let n = match self.pointer.as_ref().unwrap().flags {
            Some(f) => f,
            None => 0,
        };
        Flags::from_number(n)
    }

    /// What the downloaded data of the attachment is shown as (see [media_kind_of]), by the
    /// content type of its pointer.
    pub fn media_kind(&self) -> (r: MediaKind)
        requires
            self.pointer is Some,
        ensures
            r == media_kind_of(
                match self.pointer->0.content_type {
                    Some(t) => Some(t@),
                    None => None,
                },
            ),
    {
        match &self.pointer.as_ref().unwrap().content_type {
            Some(t) => {
                let t = t.as_str();
                if str_starts_with(t, "image/") {
                    MediaKind::Image
                } else if str_starts_with(t, "video/") {
                    MediaKind::Video
                } else if str_starts_with(t, "audio/") {
                    MediaKind::Audio
                } else {
                    MediaKind::Other
                }
            },
            None => MediaKind::Other,
        }
    }
}

/// The name that a downloaded attachment's temporary file gets: the temporary file's name, a
/// dot, and the attachment's name.
pub fn downloaded_file_name(tmp_basename: &str, name: &str) -> (r: String)
    ensures
        r@ == tmp_basename@ + "."@ + name@,
{
    let mut s = owned(tmp_basename);
    s.append(".");
    s.append(name);
    proof {
        reveal_strlit(".");
    }
    s
}

/// The extension of a file name (see [extension_of]).
pub fn file_extension(name: &str) -> (r: Option<String>)
    ensures
        match r {
            Some(e) => extension_of(name@) == Some(e@),
            None => extension_of(name@) is None,
        },
{
    proof {
        lemma_last_index_of(name@, '.');
    }
    let n = name.unicode_len();
    match find_last(name, '.') {
        Some(i) => if i >= 1 {
            Some(sub_string(name, i + 1, n))
        } else {
            None
        },
        None => None,
    }
}

/// The content type of a file to send (see [file_content_type]): the guess (`guessed`) is the
/// platform's, taken from the file's name.
pub fn content_type_for_file(basename: Option<&str>, guessed: &str) -> (r: String)
    ensures
        r@ == file_content_type(
            match basename {
                Some(b) => Some(b@),
                None => None,
            },
            guessed@,
        ),
{
    let is_png = match basename {
        Some(b) => match file_extension(b) {
            Some(e) => str_eq(e.as_str(), "png"),
            None => false,
        },
        None => false,
    };
    if is_png {
        proof {
            reveal_strlit("image/png");
        }
        owned("image/png")
    } else {
        owned(guessed)
    }
}

} // verus!
