//! The player's state: the shuffled playlist, the song that plays, its
//! credits and the volume.
//!
//! Songs are numbered by their place in the caller's list of directory
//! entries; the playlist holds those numbers. The volume is a whole number
//! of percent, from 0 to 100, changed in steps of 5.
use vstd::prelude::*;
use vstd::string::StringExecFns;

use crate::text::{decimal, push_decimal};

pub mod command;

pub use command::{Command, Outcome, SinkAction};

verus! {

/// What a `Player` is, seen from outside.
pub struct PlayerModel {
    /// The place in the playlist of the song that plays (it may run past the
    /// end, which makes the next song start the playlist over).
    pub current: int,
    /// The credits line of the song that plays.
    pub credits: Seq<char>,
    /// The numbers of the songs, in the order they play.
    pub playlist: Seq<usize>,
    /// The volume, in percent.
    pub volume: int,
}

pub struct Player {
    current: usize,
    credits: String,
    playlist: Vec<usize>,
    volume: u8,
}

impl View for Player {
    type V = PlayerModel;

    closed spec fn view(&self) -> PlayerModel {
        PlayerModel {
            current: self.current as int,
            credits: self.credits@,
            playlist: self.playlist@,
            volume: self.volume as int,
        }
    }
}

/// Whether a file with extension `ext` is a song.
pub open spec fn is_mp3(ext: Seq<char>) -> bool {
    ext == "mp3"@
}

/// The places, in increasing order, of the entries whose extension is `mp3`.
pub open spec fn mp3_indices(exts: Seq<Seq<char>>) -> Seq<usize>
    decreases exts.len(),
{
    if exts.len() == 0 {
        Seq::<usize>::empty()
    } else {
        let rest = mp3_indices(exts.drop_last());
        if is_mp3(exts.last()) {
            rest.push((exts.len() - 1) as usize)
        } else {
            rest
        }
    }
}

/// The volume after moving `volume` by `offset`, kept within 0 and 100.
pub open spec fn clamped_volume(volume: int, offset: int) -> int {
    let v = volume + offset;
    if v < 0 {
        0
    } else if v > 100 {
        100
    } else {
        v
    }
}

/// The place in a playlist of `len` songs that plays when a song starts at
/// place `current`: past the end, the playlist starts over.
pub open spec fn start_place(current: int, len: int) -> int {
    if current >= len {
        0
    } else {
        current
    }
}

/// Songs play in playlist order: when a song ends, the next place plays,
/// and after the last song the playlist starts over from its first place.
/// Skipping forward from the last song starts over too.
pub proof fn lemma_songs_play_in_order(current: int, len: int)
    requires
        0 <= current < len,
    ensures
        current + 1 < len ==> start_place(current + 1, len) == current + 1,
        current + 1 == len ==> start_place(current + 1, len) == 0,
        0 <= start_place(current + 1, len) < len,
{
}

/// Starting a song keeps a place that lies within the playlist (the first
/// place included), and goes back to the first place from any place past
/// its end.
pub proof fn lemma_start_keeps_place_in_range(current: int, len: int)
    ensures
        0 <= current < len ==> start_place(current, len) == current,
        current >= len ==> start_place(current, len) == 0,
{
}

/// A volume change that stays within 0 and 100 moves the volume by exactly
/// the offset; one that would go below 0 or above 100 stops there.
pub proof fn lemma_volume_moves_by_offset(volume: int, offset: int)
    ensures
        0 <= volume + offset <= 100 ==> clamped_volume(volume, offset) == volume + offset,
        volume + offset < 0 ==> clamped_volume(volume, offset) == 0,
        volume + offset > 100 ==> clamped_volume(volume, offset) == 100,
{
}

/// Whether a step from `before` to `after` keeps the songs of the playlist,
/// each as often.
pub open spec fn keeps_songs(before: PlayerModel, after: PlayerModel) -> bool {
    after.playlist.to_multiset() == before.playlist.to_multiset()
}

/// Over a whole run of the player, whose every step keeps the songs (as
/// `start_song`, `song_finished`, `set_volume`, `set_credits` and
/// `Command::run` each do), the playlist at every point holds the songs it
/// started with, each as often: reshuffling never adds, drops or repeats one.
pub proof fn lemma_run_keeps_songs(run: Seq<PlayerModel>)
    requires
        forall|i: int| 0 <= i < run.len() - 1 ==> keeps_songs(#[trigger] run[i], run[i + 1]),
    ensures
        forall|i: int|
            0 <= i < run.len() ==> (#[trigger] run[i]).playlist.to_multiset()
                == run[0].playlist.to_multiset(),
    decreases run.len(),
{
    if run.len() > 1 {
        let init = run.drop_last();
        assert forall|i: int| 0 <= i < init.len() - 1 implies keeps_songs(
            #[trigger] init[i],
            init[i + 1],
        ) by {
            assert(init[i] == run[i] && init[i + 1] == run[i + 1]);
            assert(keeps_songs(run[i], run[i + 1]));
        }
        lemma_run_keeps_songs(init);
        assert forall|i: int| 0 <= i < run.len() implies (#[trigger] run[i]).playlist.to_multiset()
            == run[0].playlist.to_multiset() by {
            if i < run.len() - 1 {
                assert(init[i] == run[i]);
            } else {
                assert(init[i - 1] == run[i - 1]);
                assert(keeps_songs(run[i - 1], run[i]));
            }
        }
    }
}

/// Whatever the offset, the volume stays within 0 and 100 percent.
pub proof fn lemma_volume_within_bounds(volume: int, offset: int)
    ensures
        0 <= clamped_volume(volume, offset) <= 100,
{
}

/// Turning the volume up by a step and then down by a step restores it,
/// where it was not within a step of the top; down then up restores it where
/// it was not within a step of silence.
pub proof fn lemma_volume_step_undone(volume: int, step: int)
    requires
        0 <= step,
        0 <= volume <= 100,
    ensures
        volume + step <= 100 ==> clamped_volume(clamped_volume(volume, step), -step) == volume,
        volume - step >= 0 ==> clamped_volume(clamped_volume(volume, -step), step) == volume,
{
}

/// The playlist of a directory: every `mp3` entry, each once, in the order of
/// the entries, and nothing else.
pub proof fn lemma_mp3_indices(exts: Seq<Seq<char>>)
    requires
        exts.len() <= usize::MAX,
    ensures
        forall|i: int, j: int|
            0 <= i < j < mp3_indices(exts).len() ==> mp3_indices(exts)[i] < mp3_indices(exts)[j],
        forall|i: int|
            0 <= i < mp3_indices(exts).len() ==> {
                &&& #[trigger] mp3_indices(exts)[i] < exts.len()
                &&& exts[mp3_indices(exts)[i] as int] == "mp3"@
            },
        forall|k: int|
            0 <= k < exts.len() && #[trigger] exts[k] == "mp3"@ ==> mp3_indices(exts).contains(
                k as usize,
            ),
    decreases exts.len(),
{
    if exts.len() > 0 {
        let init = exts.drop_last();
        lemma_mp3_indices(init);
        let rest = mp3_indices(init);
        let all = mp3_indices(exts);
        let last = (exts.len() - 1) as usize;
        assert(last == exts.len() - 1);
        if is_mp3(exts.last()) {
            assert(all == rest.push(last));
        } else {
            assert(all == rest);
        }
        assert forall|i: int| 0 <= i < all.len() implies {
            &&& #[trigger] all[i] < exts.len()
            &&& is_mp3(exts[all[i] as int])
        } by {
            if i < rest.len() {
                assert(all[i] == rest[i]);
                assert(init[rest[i] as int] == exts[rest[i] as int]);
            } else {
                assert(all[i] == last);
            }
        }
        assert forall|i: int, j: int| 0 <= i < j < all.len() implies all[i] < all[j] by {
            if j < rest.len() {
                assert(all[i] == rest[i] && all[j] == rest[j]);
            } else {
                assert(all[j] == last);
                assert(all[i] == rest[i]);
                assert(rest[i] < init.len());
            }
        }
        assert forall|k: int| 0 <= k < exts.len() && is_mp3(#[trigger] exts[k]) implies all.contains(
            k as usize,
        ) by {
            if k < exts.len() - 1 {
                assert(init[k] == exts[k]);
                assert(rest.contains(k as usize));
                let w = choose|w: int| 0 <= w < rest.len() && rest[w] == k as usize;
                assert(all[w] == k as usize);
            } else {
                assert(all[all.len() - 1] == k as usize);
            }
        }
    }
}

/// A tag field, or `unknown` where the tag lacks it.
pub open spec fn or_unknown(field: Option<Seq<char>>) -> Seq<char> {
    match field {
        Some(f) => f,
        None => "unknown"@,
    }
}

/// The items of `list` with `sep` between each two.
pub open spec fn join(list: Seq<Seq<char>>, sep: Seq<char>) -> Seq<char>
    decreases list.len(),
{
    if list.len() == 0 {
        Seq::<char>::empty()
    } else if list.len() == 1 {
        list[0]
    } else {
        join(list.drop_last(), sep) + sep + list.last()
    }
}

/// The comments of a song, in brackets and separated by commas; nothing where
/// there are none.
pub open spec fn comments_text(comments: Seq<Seq<char>>) -> Seq<char> {
    if comments.len() == 0 {
        Seq::<char>::empty()
    } else {
        "("@ + join(comments, ", "@) + ")"@
    }
}

/// Every comment shows, in order: none gives nothing, one shows in
/// brackets, and one more goes before the closing bracket after `, `.
pub proof fn lemma_comments_all_shown(comments: Seq<Seq<char>>, c: Seq<char>)
    ensures
        comments_text(Seq::<Seq<char>>::empty()) == Seq::<char>::empty(),
        comments_text(seq![c]) == "("@ + c + ")"@,
        comments.len() > 0 ==> comments_text(comments.push(c)) == comments_text(
            comments,
        ).drop_last() + ", "@ + c + ")"@,
        comments.len() > 0 ==> comments_text(comments.push(c)).len() == comments_text(
            comments,
        ).len() + 2 + c.len(),
{
    reveal_strlit(")");
    reveal_strlit(", ");
    assert(seq![c].len() == 1);
    if comments.len() > 0 {
        let more = comments.push(c);
        assert(more.drop_last() =~= comments);
        assert(more.last() == c);
        assert(join(more, ", "@) == join(comments, ", "@) + ", "@ + c);
        let with_bracket = "("@ + join(comments, ", "@);
        assert((with_bracket + ")"@).drop_last() =~= with_bracket);
        assert(comments_text(more) =~= with_bracket + ", "@ + c + ")"@);
    }
}

/// The credits line shows the title, ` - `, the artist, a space and the
/// comments, with `unknown` for a missing title or artist.
pub proof fn lemma_credits_fields(
    title: Option<Seq<char>>,
    artist: Option<Seq<char>>,
    comments: Seq<Seq<char>>,
)
    ensures
        credits_text(title, artist, comments) == (match title {
            Some(t) => t,
            None => "unknown"@,
        }) + " - "@ + (match artist {
            Some(a) => a,
            None => "unknown"@,
        }) + " "@ + comments_text(comments),
{
}

/// The credits line of a song: `title - artist comments`.
pub open spec fn credits_text(
    title: Option<Seq<char>>,
    artist: Option<Seq<char>>,
    comments: Seq<Seq<char>>,
) -> Seq<char> {
    or_unknown(title) + " - "@ + or_unknown(artist) + " "@ + comments_text(comments)
}

/// The line the player shows: the credits, then the volume in percent.
pub open spec fn display_text(credits: Seq<char>, volume: nat) -> Seq<char> {
    credits + " | "@ + decimal(volume) + "%"@
}

/// Randomly reorders `v` with `rand`'s `SliceRandom::shuffle` and the
/// thread's generator: the result holds the same items as `v`, each as
/// often, in an order that is random.
#[verifier::external_body]
fn shuffle(v: &mut Vec<usize>)
    ensures
        final(v)@.to_multiset() == old(v)@.to_multiset(),
        final(v)@.len() == old(v)@.len(),
{
    rand::seq::SliceRandom::shuffle(v.as_mut_slice(), &mut rand::thread_rng());
}

impl Player {
    /// A player for the directory entries whose extensions are `extensions`:
    /// its playlist holds, in random order, the places of the `mp3` entries,
    /// each once; it starts at the first song, with no credits, at `volume`.
    pub fn new(extensions: &Vec<String>, volume: u8) -> (res: Player)
        ensures
            res@.playlist.to_multiset() == mp3_indices(extensions.deep_view()).to_multiset(),
            res@.playlist.len() == mp3_indices(extensions.deep_view()).len(),
            forall|i: int|
                0 <= i < res@.playlist.len() ==> {
                    &&& #[trigger] res@.playlist[i] < extensions.len()
                    &&& extensions[res@.playlist[i] as int]@ == "mp3"@
                },
            forall|k: int|
                0 <= k < extensions.len() && #[trigger] extensions[k]@ == "mp3"@
                    ==> res@.playlist.contains(k as usize),
            res@.current == 0,
            res@.credits == Seq::<char>::empty(),
            res@.volume == volume,
    {
        let ghost exts = extensions.deep_view();
        let mp3 = String::from_str("mp3");
        proof {
            reveal_strlit("mp3");
        }
        let mut playlist: Vec<usize> = Vec::new();
        let n = extensions.len();
        let mut i: usize = 0;
        while i < n
            invariant
                n == extensions.len(),
                exts == extensions.deep_view(),
                exts.len() == n,
                i <= n,
                mp3@ == "mp3"@,
                playlist@ == mp3_indices(exts.take(i as int)),
            decreases n - i,
        {
            assert(exts.take(i + 1).drop_last() =~= exts.take(i as int));
            assert(exts.take(i + 1).last() == extensions[i as int]@);
            if extensions[i] == mp3 {
                playlist.push(i);
            }
            i = i + 1;
        }
        assert(exts.take(n as int) =~= exts);
        let ghost ordered = playlist@;
        shuffle(&mut playlist);
        proof {
            broadcast use vstd::seq_lib::group_to_multiset_ensures;

            lemma_mp3_indices(exts);
            assert forall|i: int| 0 <= i < playlist@.len() implies {
                &&& #[trigger] playlist@[i] < extensions.len()
                &&& extensions[playlist@[i] as int]@ == "mp3"@
            } by {
                assert(playlist@.contains(playlist@[i]));
                assert(playlist@.to_multiset().count(playlist@[i]) > 0);
                assert(ordered.contains(playlist@[i]));
                let w = choose|w: int| 0 <= w < ordered.len() && ordered[w] == playlist@[i];
                assert(ordered[w] < exts.len());
            }
            assert forall|k: int|
                0 <= k < extensions.len() && #[trigger] extensions[k]@ == "mp3"@ implies playlist@.contains(
                k as usize,
            ) by {
                assert(exts[k] == extensions[k]@);
                assert(ordered.contains(k as usize));
                assert(ordered.to_multiset().count(k as usize) > 0);
            }
        }
        Player { current: 0, credits: String::new(), playlist, volume }
    }

    /// The place, the number of songs and the volume are machine numbers.
    pub proof fn lemma_bounds(&self)
        ensures
            0 <= self@.current <= usize::MAX,
            self@.playlist.len() <= usize::MAX,
            0 <= self@.volume <= u8::MAX,
    {
        assert(self.playlist@.len() == self.playlist.len());
    }

    /// The place in the playlist of the song that plays.
    pub fn current(&self) -> (res: usize)
        ensures
            res == self@.current,
    {
        self.current
    }

    /// The volume, in percent.
    pub fn volume(&self) -> (res: u8)
        ensures
            res == self@.volume,
    {
        self.volume
    }

    /// The number of songs.
    pub fn playlist_len(&self) -> (res: usize)
        ensures
            res == self@.playlist.len(),
    {
        self.playlist.len()
    }

    /// The numbers of the songs, in the order they play.
    pub fn playlist(&self) -> (res: Vec<usize>)
        ensures
            res@ == self@.playlist,
    {
        let mut out: Vec<usize> = Vec::new();
        let n = self.playlist.len();
        let mut i: usize = 0;
        while i < n
            invariant
                n == self.playlist@.len(),
                i <= n,
                out@ == self.playlist@.take(i as int),
            decreases n - i,
        {
            out.push(self.playlist[i]);
            i = i + 1;
            assert(out@ =~= self.playlist@.take(i as int));
        }
        assert(self.playlist@.take(n as int) =~= self.playlist@);
        out
    }

    /// The credits line of the song that plays.
    pub fn credits(&self) -> (res: String)
        ensures
            res@ == self@.credits,
    {
        self.credits.clone()
    }

    /// Picks the song to play: past the end of the playlist, it starts over
    /// from the first place with the playlist shuffled anew. Returns the
    /// number of the song.
    pub fn start_song(&mut self) -> (res: usize)
        requires
            old(self)@.playlist.len() > 0,
        ensures
            final(self)@.current == start_place(old(self)@.current, old(self)@.playlist.len() as int),
            old(self)@.current < old(self)@.playlist.len() ==> final(self)@.current == old(
                self,
            )@.current && res == old(self)@.playlist[old(self)@.current],
            old(self)@.current >= old(self)@.playlist.len() ==> final(self)@.current == 0,
            old(self)@.current < old(self)@.playlist.len() ==> final(self)@.playlist
                == old(self)@.playlist,
            final(self)@.playlist.to_multiset() == old(self)@.playlist.to_multiset(),
            final(self)@.playlist.len() == old(self)@.playlist.len(),
            0 <= final(self)@.current < final(self)@.playlist.len(),
            res == final(self)@.playlist[final(self)@.current],
            final(self)@.credits == old(self)@.credits,
            final(self)@.volume == old(self)@.volume,
    {
        if self.current >= self.playlist.len() {
            self.current = 0;
            shuffle(&mut self.playlist);
        }
        self.playlist[self.current]
    }

    /// The song ran to its end: the next place plays.
    pub fn song_finished(&mut self)
        requires
            old(self)@.current < usize::MAX,
        ensures
            final(self)@ == (PlayerModel { current: old(self)@.current + 1, ..old(self)@ }),
    {
        self.current = self.current + 1;
    }

    /// Moves the place in the playlist by `offset`.
    pub(crate) fn move_current(&mut self, offset: i32)
        requires
            0 <= old(self)@.current + offset <= usize::MAX,
        ensures
            final(self)@ == (PlayerModel { current: old(self)@.current + offset, ..old(self)@ }),
    {
        if offset > 0 {
            self.current = self.current + (offset as usize);
        } else {
            let back: usize = (0 - (offset as i64)) as usize;
            self.current = self.current - back;
        }
    }

    /// The line the player shows.
    pub fn display(&self) -> (res: String)
        ensures
            res@ == display_text(self@.credits, self@.volume as nat),
    {
        let mut s = self.credits.clone();
        s.append(" | ");
        push_decimal(&mut s, self.volume as u64);
        s.append("%");
        s
    }

    /// Moves the volume by `offset` percent, kept within 0 and 100. Returns
    /// the line to show.
    pub fn set_volume(&mut self, offset: i32) -> (res: String)
        ensures
            final(self)@ == (PlayerModel {
                volume: clamped_volume(old(self)@.volume, offset as int),
                ..old(self)@
            }),
            res@ == display_text(final(self)@.credits, final(self)@.volume as nat),
            0 <= old(self)@.volume + offset <= 100 ==> final(self)@.volume == old(self)@.volume
                + offset,
            old(self)@.volume + offset < 0 ==> final(self)@.volume == 0,
            old(self)@.volume + offset > 100 ==> final(self)@.volume == 100,
    {
        let v: i64 = self.volume as i64 + offset as i64;
        if v < 0 {
            self.volume = 0;
        } else if v > 100 {
            self.volume = 100;
        } else {
            self.volume = v as u8;
        }
        self.display()
    }

    /// Takes the credits of a new song from its tag (title, artist and
    /// comments, each as text). Returns the line to show.
    pub fn set_credits(
        &mut self,
        title: Option<String>,
        artist: Option<String>,
        comments: &Vec<String>,
    ) -> (res: String)
        requires
            old(self)@.current < old(self)@.playlist.len(),
        ensures
            final(self)@ == (PlayerModel {
                credits: credits_text(title.deep_view(), artist.deep_view(), comments.deep_view()),
                ..old(self)@
            }),
            res@ == display_text(final(self)@.credits, final(self)@.volume as nat),
    {
        self.credits = credits_line(title, artist, comments);
        self.display()
    }
}

/// A tag field, or `unknown`.
fn field_or_unknown(field: Option<String>) -> (res: String)
    ensures
        res@ == or_unknown(field.deep_view()),
{
    match field {
        Some(f) => f,
        None => String::from_str("unknown"),
    }
}

/// The credits line for a tag.
pub fn credits_line(title: Option<String>, artist: Option<String>, comments: &Vec<String>) -> (res:
    String)
    ensures
        res@ == credits_text(title.deep_view(), artist.deep_view(), comments.deep_view()),
{
    let ghost cs = comments.deep_view();
    let mut line = field_or_unknown(title);
    line.append(" - ");
    let a = field_or_unknown(artist);
    line.append(a.as_str());
    line.append(" ");
    let ghost head = line@;
    let mut bracket = String::new();
    let n = comments.len();
    let mut i: usize = 0;
    while i < n
        invariant
            n == comments.len(),
            cs == comments.deep_view(),
            cs.len() == n,
            i <= n,
            i == 0 ==> bracket@ == Seq::<char>::empty(),
            i > 0 ==> bracket@ == "("@ + join(cs.take(i as int), ", "@),
        decreases n - i,
    {
        proof {
            reveal_strlit("(");
        }
        if bracket.as_str().is_empty() {
            bracket.append("(");
        } else {
            bracket.append(", ");
        }
        bracket.append(comments[i].as_str());
        proof {
            let t = cs.take(i + 1);
            assert(t.drop_last() =~= cs.take(i as int));
            assert(t.last() == comments[i as int]@);
            if i == 0 {
                assert(join(t, ", "@) == t[0]);
            }
        }
        i = i + 1;
    }
    proof {
        reveal_strlit("(");
        assert(cs.take(n as int) =~= cs);
    }
    if !bracket.as_str().is_empty() {
        bracket.append(")");
    }
    assert(bracket@ =~= comments_text(cs));
    line.append(bracket.as_str());
    assert(line@ =~= head + comments_text(cs));
    line
}

} // verus!
