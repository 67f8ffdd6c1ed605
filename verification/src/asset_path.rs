//! Logical asset paths: what a client may name below the asset root, and the
//! facts about a file name that decide how the file is served.
use vstd::prelude::*;
use crate::text::{
    chars_of, find_last, last_index_of, lemma_last_index_of, lemma_rows_push, lemma_split_pieces,
    rows, same_text, split, split_text, string_of,
};

verus! {

/// The content types that the file server announces.
#[derive(Clone, Copy, Debug, PartialEq, Eq, Structural)]
pub enum ContentType {
    Html,
    Css,
    OctetStream,
}

impl ContentType {
    /// The media type as it stands in a `Content-Type` header.
    pub fn media_type(&self) -> (text: &'static str)
        ensures
            text@ == match *self {
                ContentType::Html => "text/html"@,
                ContentType::Css => "text/css"@,
                ContentType::OctetStream => "application/octet-stream"@,
            },
    {
        match self {
            ContentType::Html => "text/html",
            ContentType::Css => "text/css",
            ContentType::OctetStream => "application/octet-stream",
        }
    }
}

/// Why a requested path names no asset.
#[derive(Clone, Copy, Debug, PartialEq, Eq, Structural)]
pub enum PathError {
    /// The path starts at the file system's root.
    Absolute,
    /// The path holds a parent-directory segment.
    ParentSegment,
    /// The path names nothing: it holds no segment but empty ones and `.`.
    Empty,
}

/// The segment that stands for the directory itself.
pub open spec fn dot() -> Seq<char> {
    seq!['.']
}

/// The segment that stands for the parent directory.
pub open spec fn dot_dot() -> Seq<char> {
    seq!['.', '.']
}

/// A segment that names a file or a directory below its parent: not empty,
/// not `.`, not `..`, and without a separator.
pub open spec fn is_normal(segment: Seq<char>) -> bool {
    &&& segment.len() > 0
    &&& segment != dot()
    &&& segment != dot_dot()
    &&& !segment.contains('/')
}

/// A piece of a path that names nothing and is passed over: an empty piece
/// (a doubled or trailing separator) and `.`.
pub open spec fn is_passed_over(piece: Seq<char>) -> bool {
    piece.len() == 0 || piece == dot()
}

/// The pieces that are left when those that name nothing are passed over.
pub open spec fn named_pieces(pieces: Seq<Seq<char>>) -> Seq<Seq<char>>
    decreases pieces.len(),
{
    if pieces.len() == 0 {
        Seq::<Seq<char>>::empty()
    } else if is_passed_over(pieces.last()) {
        named_pieces(pieces.drop_last())
    } else {
        named_pieces(pieces.drop_last()).push(pieces.last())
    }
}

/// What a requested path resolves to: its named segments, or the reason why
/// it is refused. A path from the root is refused first, then one with a
/// parent-directory segment, then one that names nothing.
pub open spec fn parse_path(text: Seq<char>) -> Result<Seq<Seq<char>>, PathError> {
    let pieces = split(text, '/');
    if text.len() > 0 && text[0] == '/' {
        Err(PathError::Absolute)
    } else if pieces.contains(dot_dot()) {
        Err(PathError::ParentSegment)
    } else if named_pieces(pieces).len() == 0 {
        Err(PathError::Empty)
    } else {
        Ok(named_pieces(pieces))
    }
}

/// The extension of a file name: what follows its last dot, unless the name
/// has no dot or its only dot comes first.
pub open spec fn extension(name: Seq<char>) -> Option<Seq<char>> {
    let at = last_index_of(name, '.');
    if at <= 0 {
        None
    } else {
        Some(name.skip(at + 1))
    }
}

/// What is appended to a file name to name its compressed sibling. The
/// sibling's extension is the name's own extension followed by `.gz`; a name
/// without extension has the empty one, so that its sibling ends in `..gz`.
pub open spec fn gz_suffix(name: Seq<char>) -> Seq<char> {
    if extension(name) is Some {
        seq!['.', 'g', 'z']
    } else {
        seq!['.', '.', 'g', 'z']
    }
}

/// The file name of the compressed sibling of `name`.
pub open spec fn gz_name(name: Seq<char>) -> Seq<char> {
    name + gz_suffix(name)
}

/// The content type announced for a file of this name.
pub open spec fn content_type_of(name: Seq<char>) -> ContentType {
    match extension(name) {
        Some(ext) => if ext == seq!['h', 't', 'm', 'l'] {
            ContentType::Html
        } else if ext == seq!['c', 's', 's'] {
            ContentType::Css
        } else {
            ContentType::OctetStream
        },
        None => ContentType::OctetStream,
    }
}

/// The named pieces of a path without `..` are normal segments.
pub proof fn lemma_named_pieces_normal(pieces: Seq<Seq<char>>)
    requires
        !pieces.contains(dot_dot()),
        forall|i: int| 0 <= i < pieces.len() ==> !(#[trigger] pieces[i]).contains('/'),
    ensures
        forall|i: int|
            0 <= i < named_pieces(pieces).len() ==> is_normal(#[trigger] named_pieces(pieces)[i]),
    decreases pieces.len(),
{
    if pieces.len() > 0 {
        let front = pieces.drop_last();
        assert forall|i: int| 0 <= i < front.len() implies !(#[trigger] front[i]).contains(
            '/',
        ) by {
            assert(front[i] == pieces[i]);
        }
        if front.contains(dot_dot()) {
            let k = choose|k: int| 0 <= k < front.len() && front[k] == dot_dot();
            assert(pieces[k] == dot_dot());
        }
        lemma_named_pieces_normal(front);
        let last = pieces[pieces.len() - 1];
        assert(pieces.contains(last));
        assert(!last.contains('/'));
        assert forall|i: int| 0 <= i < named_pieces(pieces).len() implies is_normal(
            #[trigger] named_pieces(pieces)[i],
        ) by {
            if i < named_pieces(front).len() {
                assert(named_pieces(pieces)[i] == named_pieces(front)[i]);
            }
        }
    }
}

/// The segments of a path that is not refused are normal: none is empty,
/// none is `.` or `..`, and none holds a separator.
pub proof fn law_parsed_segments_normal(text: Seq<char>, segments: Seq<Seq<char>>)
    requires
        parse_path(text) == Ok::<Seq<Seq<char>>, PathError>(segments),
    ensures
        segments.len() > 0,
        forall|i: int| 0 <= i < segments.len() ==> is_normal(#[trigger] segments[i]),
{
    lemma_split_pieces(text, '/');
    lemma_named_pieces_normal(split(text, '/'));
}

/// The extension of the text in `name`, computed.
pub fn extension_of(name: &Vec<char>) -> (ext: Option<Vec<char>>)
    ensures
        match ext {
            Some(e) => extension(name@) == Some(e@),
            None => extension(name@) is None,
        },
{
    proof {
        lemma_last_index_of(name@, '.');
    }
    match find_last(name, '.') {
        Some(at) => {
            if at == 0 {
                None
            } else {
                assert(at < name.len());
                let mut ext: Vec<char> = Vec::new();
                let mut i: usize = at + 1;
                while i < name.len()
                    invariant
                        at + 1 <= i <= name.len(),
                        ext@ == name@.subrange(at + 1, i as int),
                    decreases name.len() - i,
                {
                    ext.push(name[i]);
                    proof {
                        assert(name@.subrange(at + 1, i + 1) == name@.subrange(
                            at + 1,
                            i as int,
                        ).push(name@[i as int]));
                    }
                    i += 1;
                }
                proof {
                    assert(name@.subrange(at + 1, name@.len() as int) == name@.skip(at + 1));
                }
                Some(ext)
            }
        },
        None => None,
    }
}

/// The content type announced for a file of this name, computed.
pub fn content_type_for(name: &Vec<char>) -> (kind: ContentType)
    ensures
        kind == content_type_of(name@),
{
    match extension_of(name) {
        Some(ext) => {
            let html: Vec<char> = vec!['h', 't', 'm', 'l'];
            let css: Vec<char> = vec!['c', 's', 's'];
            proof {
                assert(html@ == seq!['h', 't', 'm', 'l']);
                assert(css@ == seq!['c', 's', 's']);
            }
            if same_text(&ext, &html) {
                ContentType::Html
            } else if same_text(&ext, &css) {
                ContentType::Css
            } else {
                ContentType::OctetStream
            }
        },
        None => ContentType::OctetStream,
    }
}

/// The suffix that names the compressed sibling of `name`, computed.
pub fn gz_suffix_for(name: &Vec<char>) -> (suffix: Vec<char>)
    ensures
        suffix@ == gz_suffix(name@),
{
    proof {
        lemma_last_index_of(name@, '.');
    }
    let has_extension = match find_last(name, '.') {
        Some(at) => at > 0,
        None => false,
    };
    if has_extension {
        let suffix: Vec<char> = vec!['.', 'g', 'z'];
        proof {
            assert(suffix@ == seq!['.', 'g', 'z']);
        }
        suffix
    } else {
        let suffix: Vec<char> = vec!['.', '.', 'g', 'z'];
        proof {
            assert(suffix@ == seq!['.', '.', 'g', 'z']);
        }
        suffix
    }
}

/// A path below the asset root: one or more normal segments, the last of
/// which names the file.
#[derive(Debug)]
pub struct AssetPath {
    segments: Vec<Vec<char>>,
}

impl AssetPath {
    /// The segments of the path, first to last.
    pub closed spec fn segments(&self) -> Seq<Seq<char>> {
        rows(self.segments@)
    }

    /// A path holds at least one segment, and each is normal: no path of this
    /// type leads out of the directory it is resolved against.
    #[verifier::type_invariant]
    pub open spec fn wf(&self) -> bool {
        &&& self.segments().len() > 0
        &&& forall|i: int|
            0 <= i < self.segments().len() ==> is_normal(#[trigger] self.segments()[i])
    }

    /// The name of the file that the path leads to.
    pub open spec fn file_name(&self) -> Seq<char> {
        self.segments().last()
    }

    /// Reads a requested path. Empty pieces and `.` are passed over; a path
    /// from the root, or with a `..` segment, or without any name is refused.
    pub fn parse(text: &str) -> (r: Result<AssetPath, PathError>)
        ensures
            match r {
                Ok(path) => path.wf() && parse_path(text@) == Ok::<Seq<Seq<char>>, PathError>(
                    path.segments(),
                ),
                Err(e) => parse_path(text@) == Err::<Seq<Seq<char>>, PathError>(e),
            },
    {
        let chars = chars_of(text);
        if chars.len() > 0 && chars[0] == '/' {
            return Err(PathError::Absolute);
        }
        let pieces = split_text(&chars, '/');
        let one_dot: Vec<char> = vec!['.'];
        let two_dots: Vec<char> = vec!['.', '.'];
        proof {
            assert(one_dot@ == dot());
            assert(two_dots@ == dot_dot());
        }
        let mut named: Vec<Vec<char>> = Vec::new();
        let mut i: usize = 0;
        proof {
            assert(rows(pieces@).take(0) =~= Seq::<Seq<char>>::empty());
            assert(rows(named@) =~= Seq::<Seq<char>>::empty());
        }
        while i < pieces.len()
            invariant
                i <= pieces.len(),
                one_dot@ == dot(),
                two_dots@ == dot_dot(),
                rows(pieces@) == split(text@, '/'),
                !(text@.len() > 0 && text@[0] == '/'),
                !rows(pieces@).take(i as int).contains(dot_dot()),
                rows(named@) == named_pieces(rows(pieces@).take(i as int)),
            decreases pieces.len() - i,
        {
            let ghost upto = rows(pieces@).take(i + 1);
            proof {
                assert(upto.drop_last() == rows(pieces@).take(i as int));
                assert(upto.last() == pieces@[i as int]@);
            }
            if same_text(&pieces[i], &two_dots) {
                proof {
                    assert(rows(pieces@)[i as int] == dot_dot());
                    assert(rows(pieces@).contains(dot_dot()));
                }
                return Err(PathError::ParentSegment);
            }
            proof {
                if upto.contains(dot_dot()) {
                    let k = choose|k: int| 0 <= k < upto.len() && upto[k] == dot_dot();
                    if k < i {
                        assert(rows(pieces@).take(i as int)[k] == dot_dot());
                    }
                }
            }
            if pieces[i].len() > 0 && !same_text(&pieces[i], &one_dot) {
                proof {
                    lemma_rows_push(named@, pieces@[i as int]);
                }
                named.push(pieces[i].clone());
                proof {
                    assert(named@.last()@ == pieces@[i as int]@);
                }
            }
            i += 1;
        }
        proof {
            assert(rows(pieces@).take(pieces@.len() as int) == rows(pieces@));
            lemma_split_pieces(text@, '/');
            lemma_named_pieces_normal(rows(pieces@));
        }
        if named.len() == 0 {
            Err(PathError::Empty)
        } else {
            Ok(AssetPath { segments: named })
        }
    }

    /// The number of segments.
    pub fn len(&self) -> (n: usize)
        ensures
            n == self.segments().len(),
            n > 0,
    {
        proof {
            use_type_invariant(self);
        }
        self.segments.len()
    }

    /// The characters of the segment at `index`.
    pub(crate) fn piece(&self, index: usize) -> (text: &Vec<char>)
        requires
            index < self.segments().len(),
        ensures
            text@ == self.segments()[index as int],
    {
        &self.segments[index]
    }

    /// The segment at `index`, if the path has that many.
    pub fn segment(&self, index: usize) -> (name: Option<String>)
        ensures
            match name {
                Some(text) => index < self.segments().len()
                    && text@ == self.segments()[index as int],
                None => index >= self.segments().len(),
            },
    {
        if index < self.segments.len() {
            Some(string_of(&self.segments[index]))
        } else {
            None
        }
    }

    /// The content type announced for the file that the path leads to: it
    /// goes by the extension of the file's own name.
    pub fn content_type(&self) -> (kind: ContentType)
        ensures
            kind == content_type_of(self.file_name()),
    {
        proof {
            use_type_invariant(self);
        }
        content_type_for(&self.segments[self.segments.len() - 1])
    }
}

} // verus!
