use vstd::prelude::*;

verus! {

/// A track of the library, named by where its file lies.
#[derive(Debug, PartialEq, Eq)]
pub struct Track {
    pub path: String,
}

impl Clone for Track {
    fn clone(&self) -> (copy: Self)
        ensures
            copy == *self,
    {
        Track { path: self.path.clone() }
    }
}

/// An album: its title and its tracks in their order.
#[derive(Debug)]
pub struct Album {
    pub title: String,
    pub tracks: Vec<Track>,
}

/// An artist: the name and the albums in their order.
#[derive(Debug)]
pub struct Artist {
    pub name: String,
    pub albums: Vec<Album>,
}

/// The index of the music that can be played.
#[derive(Debug)]
pub struct Library {
    pub artists: Vec<Artist>,
}

/// The index of the first artist named `name` at or after index `from`, or
/// the number of artists where there is none.
pub open spec fn artist_index(artists: Seq<Artist>, name: Seq<char>, from: int) -> int
    decreases artists.len() - from,
{
    if from < 0 || from >= artists.len() {
        artists.len() as int
    } else if artists[from].name@ == name {
        from
    } else {
        artist_index(artists, name, from + 1)
    }
}

/// The index of the first album titled `title` at or after index `from`, or
/// the number of albums where there is none.
pub open spec fn album_index(albums: Seq<Album>, title: Seq<char>, from: int) -> int
    decreases albums.len() - from,
{
    if from < 0 || from >= albums.len() {
        albums.len() as int
    } else if albums[from].title@ == title {
        from
    } else {
        album_index(albums, title, from + 1)
    }
}

/// The names of `artists`, in their order.
pub open spec fn artist_names(artists: Seq<Artist>) -> Seq<String> {
    Seq::new(artists.len(), |i: int| artists[i].name)
}

/// The titles of `albums`, in their order.
pub open spec fn album_titles(albums: Seq<Album>) -> Seq<String> {
    Seq::new(albums.len(), |i: int| albums[i].title)
}

/// The index of the first album titled `album`, or the number of albums.
fn find_album(albums: &Vec<Album>, album: &String) -> (at: usize)
    ensures
        at == album_index(albums@, album@, 0),
        at <= albums@.len(),
{
    let mut i: usize = 0;
    while i < albums.len()
        invariant
            i <= albums.len(),
            album_index(albums@, album@, 0) == album_index(albums@, album@, i as int),
        decreases albums.len() - i,
    {
        if albums[i].title == *album {
            return i;
        }
        i += 1;
    }
    i
}

impl Library {
    /// The albums of the first artist named `artist`; none where no artist
    /// has that name.
    pub open spec fn albums_of(&self, artist: Seq<char>) -> Seq<Album> {
        let at = artist_index(self.artists@, artist, 0);
        if at < self.artists@.len() {
            self.artists@[at].albums@
        } else {
            Seq::empty()
        }
    }

    /// The tracks of the first album titled `album` of the first artist named
    /// `artist`; none where there is no such album.
    pub open spec fn tracks_of(&self, artist: Seq<char>, album: Seq<char>) -> Seq<Track> {
        let albums = self.albums_of(artist);
        let at = album_index(albums, album, 0);
        if at < albums.len() {
            albums[at].tracks@
        } else {
            Seq::empty()
        }
    }

    /// The index of `artists`, in their order.
    pub fn new(artists: Vec<Artist>) -> (library: Self)
        ensures
            library.artists == artists,
    {
        Library { artists }
    }

    /// The index of the first artist named `artist`, or the number of artists.
    fn find_artist(&self, artist: &String) -> (at: usize)
        ensures
            at == artist_index(self.artists@, artist@, 0),
            at <= self.artists@.len(),
    {
        let mut i: usize = 0;
        while i < self.artists.len()
            invariant
                i <= self.artists.len(),
                artist_index(self.artists@, artist@, 0) == artist_index(
                    self.artists@,
                    artist@,
                    i as int,
                ),
            decreases self.artists.len() - i,
        {
            if self.artists[i].name == *artist {
                return i;
            }
            i += 1;
        }
        i
    }

    /// The names of the artists, in the order of the library.
    pub fn list_artists(&self) -> (names: Vec<String>)
        ensures
            names@ == artist_names(self.artists@),
    {
        let mut names: Vec<String> = Vec::new();
        let mut i: usize = 0;
        while i < self.artists.len()
            invariant
                i <= self.artists.len(),
                names@ == artist_names(self.artists@.take(i as int)),
            decreases self.artists.len() - i,
        {
            names.push(self.artists[i].name.clone());
            proof {
                assert(names@ =~= artist_names(self.artists@.take(i as int + 1)));
            }
            i += 1;
        }
        proof {
            assert(self.artists@.take(i as int) =~= self.artists@);
        }
        names
    }

    /// The titles of the albums of `artist`, in the order of the library.
    pub fn list_albums(&self, artist: &String) -> (titles: Vec<String>)
        ensures
            titles@ == album_titles(self.albums_of(artist@)),
    {
        let mut titles: Vec<String> = Vec::new();
        let at: usize = self.find_artist(artist);
        if at < self.artists.len() {
            let albums: &Vec<Album> = &self.artists[at].albums;
            let mut i: usize = 0;
            while i < albums.len()
                invariant
                    i <= albums.len(),
                    titles@ == album_titles(albums@.take(i as int)),
                decreases albums.len() - i,
            {
                titles.push(albums[i].title.clone());
                proof {
                    assert(titles@ =~= album_titles(albums@.take(i as int + 1)));
                }
                i += 1;
            }
            proof {
                assert(albums@.take(i as int) =~= albums@);
            }
        } else {
            proof {
                assert(titles@ =~= album_titles(Seq::<Album>::empty()));
            }
        }
        titles
    }

    /// The tracks of `album` of `artist`, in the order of the library.
    pub fn list_tracks(&self, artist: &String, album: &String) -> (tracks: Vec<Track>)
        ensures
            tracks@ == self.tracks_of(artist@, album@),
    {
        let mut tracks: Vec<Track> = Vec::new();
        let at: usize = self.find_artist(artist);
        if at < self.artists.len() {
            let albums: &Vec<Album> = &self.artists[at].albums;
            let a: usize = find_album(albums, album);
            if a < albums.len() {
                let found: &Vec<Track> = &albums[a].tracks;
                let mut i: usize = 0;
                while i < found.len()
                    invariant
                        i <= found.len(),
                        tracks@ == found@.take(i as int),
                    decreases found.len() - i,
                {
                    tracks.push(found[i].clone());
                    proof {
                        assert(tracks@ =~= found@.take(i as int + 1));
                    }
                    i += 1;
                }
                proof {
                    assert(found@.take(i as int) =~= found@);
                }
            }
        }
        proof {
            assert(tracks@ =~= self.tracks_of(artist@, album@));
        }
        tracks
    }
}

} // verus!
