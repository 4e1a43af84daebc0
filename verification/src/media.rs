//! What is playing: the title and the artist that a media player announces.

use crate::text::{chars_of, range_starts_with, text_of};
use vstd::prelude::*;
use vstd::std_specs::cmp::PartialEqSpecImpl;

verus! {

/// The title and the artist of what is playing, each missing if not known.
#[derive(Debug)]
pub struct MediaMetadata {
    pub title: Option<String>,
    pub artist: Option<String>,
}

/// What is playing, as mathematical values.
pub struct MediaView {
    pub title: Option<Seq<char>>,
    pub artist: Option<Seq<char>>,
}

impl View for MediaMetadata {
    type V = MediaView;

    open spec fn view(&self) -> MediaView {
        MediaView { title: text_of(self.title), artist: text_of(self.artist) }
    }
}

/// Nothing is playing: neither a title nor an artist.
pub open spec fn no_media() -> MediaView {
    MediaView { title: None, artist: None }
}

impl Default for MediaMetadata {
    fn default() -> (r: Self)
        ensures
            r@ == no_media(),
    {
        MediaMetadata { title: None, artist: None }
    }
}

impl Clone for MediaMetadata {
    fn clone(&self) -> (r: Self)
        ensures
            r@ == self@,
    {
        MediaMetadata { title: self.title.clone(), artist: self.artist.clone() }
    }
}

/// Tells whether two texts that may be missing are the same.
pub fn same_text(a: &Option<String>, b: &Option<String>) -> (r: bool)
    ensures
        r == (text_of(*a) == text_of(*b)),
{
    match (a, b) {
        (Some(x), Some(y)) => *x == *y,
        (None, None) => true,
        _ => false,
    }
}

impl PartialEq for MediaMetadata {
    fn eq(&self, other: &Self) -> (r: bool) {
        same_text(&self.title, &other.title) && same_text(&self.artist, &other.artist)
    }
}

impl PartialEqSpecImpl for MediaMetadata {
    open spec fn obeys_eq_spec() -> bool {
        true
    }

    open spec fn eq_spec(&self, other: &Self) -> bool {
        self@ == other@
    }
}

/// The artist entry of a player's metadata, as the bus delivers it.
#[derive(Debug)]
pub enum ArtistValue {
    /// A single text.
    Text(String),
    /// A list; each item is its text, or `None` where the item is no text.
    List(Vec<Option<String>>),
    /// Anything else.
    Other,
}

/// The texts among `items`, in order.
pub open spec fn texts_of(items: Seq<Option<String>>) -> Seq<Seq<char>>
    decreases items.len(),
{
    if items.len() == 0 {
        Seq::empty()
    } else {
        match items.last() {
            Some(s) => texts_of(items.drop_last()).push(s@),
            None => texts_of(items.drop_last()),
        }
    }
}

/// The parts in order, with `sep` between each two.
pub open spec fn joined(parts: Seq<Seq<char>>, sep: Seq<char>) -> Seq<char>
    decreases parts.len(),
{
    if parts.len() == 0 {
        Seq::empty()
    } else if parts.len() == 1 {
        parts[0]
    } else {
        joined(parts.drop_last(), sep) + sep + parts.last()
    }
}

/// The artist that an entry names: the text itself; for a list the texts in
/// it joined by a comma and a space, if it holds any; else none.
pub open spec fn artist_of(value: ArtistValue) -> Option<Seq<char>> {
    match value {
        ArtistValue::Text(s) => Some(s@),
        ArtistValue::List(items) => if texts_of(items@).len() > 0 {
            Some(joined(texts_of(items@), ", "@))
        } else {
            None
        },
        ArtistValue::Other => None,
    }
}

/// Reads the artist from the artist entry of a player's metadata.
pub fn artist_text(value: &ArtistValue) -> (r: Option<String>)
    ensures
        text_of(r) == artist_of(*value),
{
    match value {
        ArtistValue::Text(s) => Some(s.clone()),
        ArtistValue::List(items) => {
            let mut out = String::new();
            let mut any = false;
            let mut i: usize = 0;
            proof {
                assert(items@.take(0) =~= Seq::<Option<String>>::empty());
            }
            while i < items.len()
                invariant
                    i <= items.len(),
                    any == (texts_of(items@.take(i as int)).len() > 0),
                    out@ == joined(texts_of(items@.take(i as int)), ", "@),
                decreases items.len() - i,
            {
                proof {
                    assert(items@.take(i + 1).drop_last() =~= items@.take(i as int));
                    assert(items@.take(i + 1).last() == items@[i as int]);
                }
                match &items[i] {
                    Some(s) => {
                        if any {
                            out.append(", ");
                        }
                        out.append(s.as_str());
                        proof {
                            let before = texts_of(items@.take(i as int));
                            let after = texts_of(items@.take(i + 1));
                            assert(after.drop_last() =~= before);
                            assert(after.last() == s@);
                            if !any {
                                assert(before =~= Seq::<Seq<char>>::empty());
                                assert(Seq::<char>::empty() + s@ =~= s@);
                            }
                        }
                        any = true;
                    },
                    None => {},
                }
                i += 1;
            }
            proof {
                assert(items@.take(items.len() as int) =~= items@);
            }
            if any {
                Some(out)
            } else {
                None
            }
        },
        ArtistValue::Other => None,
    }
}

/// What a player that announces this title and this artist entry is playing:
/// nothing if it names neither a title nor an artist.
pub open spec fn media_of(title: Option<String>, artist: Option<ArtistValue>) -> Option<
    MediaView,
> {
    let artist = match artist {
        Some(value) => artist_of(value),
        None => None,
    };
    if title is Some || artist is Some {
        Some(MediaView { title: text_of(title), artist })
    } else {
        None
    }
}

/// Reads what a player is playing from the title and the artist entry of its
/// metadata, each `None` if the metadata has no such entry or, for the title,
/// the entry is no text.
pub fn media_from_properties(title: Option<String>, artist: Option<ArtistValue>) -> (r: Option<
    MediaMetadata,
>)
    ensures
        match media_of(title, artist) {
            Some(m) => r matches Some(found) && found@ == m,
            None => r is None,
        },
{
    let artist = match &artist {
        Some(value) => artist_text(value),
        None => None,
    };
    if title.is_some() || artist.is_some() {
        Some(MediaMetadata { title, artist })
    } else {
        None
    }
}

/// True when a bus name is that of a media player.
pub open spec fn is_player_name(name: Seq<char>) -> bool {
    "org.mpris.MediaPlayer2."@.is_prefix_of(name)
}

/// Tells whether a bus name is that of a media player.
pub fn is_media_player(name: &str) -> (r: bool)
    ensures
        r == is_player_name(name@),
{
    let chars = chars_of(name);
    proof {
        assert(chars@.subrange(0, chars.len() as int) =~= chars@);
    }
    range_starts_with(&chars, 0, chars.len(), &chars_of("org.mpris.MediaPlayer2."))
}

/// The position of the first media player among `names[from..]`, if there is
/// one: the player to ask next.
pub fn next_player(names: &Vec<String>, from: usize) -> (r: Option<usize>)
    ensures
        match r {
            Some(i) => {
                &&& from <= i < names.len()
                &&& is_player_name(names[i as int]@)
                &&& forall|j: int| from <= j < i ==> !is_player_name(#[trigger] names[j]@)
            },
            None => forall|j: int|
                from <= j < names.len() ==> !is_player_name(#[trigger] names[j]@),
        },
{
    let mut i: usize = from;
    while i < names.len()
        invariant
            from <= i,
            forall|j: int| from <= j < i && j < names.len() ==> !is_player_name(#[trigger] names[j]@),
        decreases names.len() - i,
    {
        if is_media_player(names[i].as_str()) {
            return Some(i);
        }
        i += 1;
    }
    None
}

} // verus!
