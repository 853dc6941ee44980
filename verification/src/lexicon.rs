//! Which word list divides the Han of a regional convention.

use vstd::prelude::*;

use crate::script::Region;

verus! {

/// How a word list is laid out.
#[derive(Debug, Clone, Copy, PartialEq, Eq, Structural)]
pub enum Layout {
    Mmseg,
    Words,
}

/// The file of the word list for a region.
pub open spec fn list_path(region: Region) -> Seq<char> {
    match region {
        Region::Simplified => "/usr/lib/mmseg/data_mmap"@,
        Region::Traditional => "/usr/lib/mmseg/tcn/data_mmap"@,
        Region::Japanese => "/usr/lib/resegmenter/words_list.mem"@,
    }
}

/// The word list for a region, and how it is laid out.
pub fn list_for(region: Region) -> (r: (&'static str, Layout))
    ensures
        r.0@ == list_path(region),
        r.1 == (if region == Region::Japanese {
            Layout::Words
        } else {
            Layout::Mmseg
        }),
{
    match region {
        Region::Simplified => ("/usr/lib/mmseg/data_mmap", Layout::Mmseg),
        Region::Traditional => ("/usr/lib/mmseg/tcn/data_mmap", Layout::Mmseg),
        Region::Japanese => ("/usr/lib/resegmenter/words_list.mem", Layout::Words),
    }
}

/// Which list is in use, by its region, and whether it could be read.
#[derive(Debug, Clone, Copy, PartialEq, Eq, Structural)]
pub struct Lexicon {
    pub region: Option<Region>,
}

impl Lexicon {
    /// Whether the list for a region has to be read: it is another than the one in
    /// use.
    pub fn wants(&self, region: Region) -> (r: bool)
        ensures
            r == (self.region != Some(region)),
    {
        match self.region {
            Some(held) => held != region,
            None => true,
        }
    }

    /// Note what reading the list gave. One that could not be read is tried again.
    pub fn took(&mut self, region: Region, read: bool)
        ensures
            final(self).region == (if read {
                Some(region)
            } else {
                None
            }),
    {
        self.region = if read {
            Some(region)
        } else {
            None
        };
    }
}

} // verus!
