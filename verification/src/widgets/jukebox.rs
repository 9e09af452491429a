//! The jukebox pane: the last line the player sent.
use vstd::prelude::*;

verus! {

pub struct Jukebox {
    display: String,
}

impl Jukebox {
    /// The line the pane shows.
    pub closed spec fn shown(&self) -> Seq<char> {
        self.display@
    }

    /// A pane that shows nothing yet.
    pub fn new() -> (res: Jukebox)
        ensures
            res.shown() == Seq::<char>::empty(),
    {
        Jukebox { display: String::new() }
    }

    /// Takes the line the player sent since the last drawing, if any: the
    /// pane shows it from now on.
    pub fn update(&mut self, received: Option<String>)
        ensures
            match received {
                Some(line) => final(self).shown() == line@,
                None => final(self).shown() == old(self).shown(),
            },
    {
        if let Some(line) = received {
            self.display = line;
        }
    }

    /// The text to draw.
    pub fn text(&self) -> (res: String)
        ensures
            res@ == self.shown(),
    {
        self.display.clone()
    }
}

} // verus!
