//! The faces that draw each writing system: which a writer can choose, which
//! they chose, and which file a run of text is drawn from.

use vstd::prelude::*;

use crate::script::{Region, Role};
use crate::text::{chars_of, is_text, lines, lines_of, views, white, words, words_of};

verus! {

/// A writing system with a setting of its own.
#[derive(Debug, Clone, Copy, PartialEq, Eq, Structural)]
pub enum Group {
    Latin,
    Han(Region),
    Hangul,
}

/// How many writing systems there are.
pub const GROUP_COUNT: usize = 5;

/// The writing systems, in the order they are listed and stored.
pub open spec fn group_nth(i: int) -> Group {
    if i == 0 {
        Group::Latin
    } else if i == 1 {
        Group::Han(Region::Simplified)
    } else if i == 2 {
        Group::Han(Region::Traditional)
    } else if i == 3 {
        Group::Han(Region::Japanese)
    } else {
        Group::Hangul
    }
}

/// Every writing system, in order.
pub fn groups() -> (r: Vec<Group>)
    ensures
        r.len() == GROUP_COUNT,
        forall|i: int| 0 <= i < GROUP_COUNT ==> r[i] == group_nth(i),
{
    vec![
        Group::Latin,
        Group::Han(Region::Simplified),
        Group::Han(Region::Traditional),
        Group::Han(Region::Japanese),
        Group::Hangul,
    ]
}

fn nth_group(i: usize) -> (r: Group)
    ensures
        r == group_nth(i as int),
{
    if i == 0 {
        Group::Latin
    } else if i == 1 {
        Group::Han(Region::Simplified)
    } else if i == 2 {
        Group::Han(Region::Traditional)
    } else if i == 3 {
        Group::Han(Region::Japanese)
    } else {
        Group::Hangul
    }
}

impl Group {
    pub open spec fn index(self) -> int {
        match self {
            Group::Latin => 0,
            Group::Han(Region::Simplified) => 1,
            Group::Han(Region::Traditional) => 2,
            Group::Han(Region::Japanese) => 3,
            Group::Hangul => 4,
        }
    }

    /// The writing system a role belongs to, under a regional convention.
    pub open spec fn of_role(role: Role, region: Region) -> Group {
        if role.hangul() {
            Group::Hangul
        } else if role.han() {
            Group::Han(region)
        } else {
            Group::Latin
        }
    }

    pub open spec fn labelled(self) -> Seq<char> {
        match self {
            Group::Latin => "Latin"@,
            Group::Han(Region::Simplified) => "简体"@,
            Group::Han(Region::Traditional) => "繁體"@,
            Group::Han(Region::Japanese) => "日本語"@,
            Group::Hangul => "한글"@,
        }
    }

    /// What the system is called where choices are stored.
    pub open spec fn stored(self) -> Seq<char> {
        match self {
            Group::Latin => "latin"@,
            Group::Han(Region::Simplified) => "sc"@,
            Group::Han(Region::Traditional) => "tc"@,
            Group::Han(Region::Japanese) => "ja"@,
            Group::Hangul => "ko"@,
        }
    }

    /// How many faces a family of this system has.
    pub open spec fn role_count(self) -> int {
        match self {
            Group::Latin => 4,
            _ => 2,
        }
    }

    /// The roles of this system, each at its place in a family.
    pub open spec fn role_nth(self, i: int) -> Role {
        match self {
            Group::Latin => if i == 0 {
                Role::Body
            } else if i == 1 {
                Role::BodyItalic
            } else if i == 2 {
                Role::BodyBold
            } else {
                Role::BodyBoldItalic
            },
            Group::Han(_) => if i == 0 {
                Role::Han
            } else {
                Role::HanBold
            },
            Group::Hangul => if i == 0 {
                Role::Hangul
            } else {
                Role::HangulBold
            },
        }
    }

    /// The convention that this system's faces are kept under.
    pub open spec fn home(self) -> Region {
        match self {
            Group::Han(region) => region,
            _ => Region::Simplified,
        }
    }

    pub fn of(role: Role, region: Region) -> (r: Group)
        ensures
            r == Group::of_role(role, region),
    {
        if role.is_hangul() {
            Group::Hangul
        } else if role.is_han() {
            Group::Han(region)
        } else {
            Group::Latin
        }
    }

    pub fn roles(self) -> (r: Vec<Role>)
        ensures
            r.len() == self.role_count(),
            forall|i: int| 0 <= i < r.len() ==> r[i] == self.role_nth(i),
    {
        match self {
            Group::Latin => vec![
                Role::Body,
                Role::BodyItalic,
                Role::BodyBold,
                Role::BodyBoldItalic,
            ],
            Group::Han(_) => vec![Role::Han, Role::HanBold],
            Group::Hangul => vec![Role::Hangul, Role::HangulBold],
        }
    }

    pub fn region(self) -> (r: Region)
        ensures
            r == self.home(),
    {
        match self {
            Group::Han(region) => region,
            _ => Region::Simplified,
        }
    }

    pub fn label(self) -> (r: &'static str)
        ensures
            r@ == self.labelled(),
    {
        match self {
            Group::Latin => "Latin",
            Group::Han(Region::Simplified) => "简体",
            Group::Han(Region::Traditional) => "繁體",
            Group::Han(Region::Japanese) => "日本語",
            Group::Hangul => "한글",
        }
    }

    pub fn token(self) -> (r: &'static str)
        ensures
            r@ == self.stored(),
    {
        match self {
            Group::Latin => "latin",
            Group::Han(Region::Simplified) => "sc",
            Group::Han(Region::Traditional) => "tc",
            Group::Han(Region::Japanese) => "ja",
            Group::Hangul => "ko",
        }
    }
}

/// A design that a writing system can be set in: its name, and a file for each
/// role of the system.
#[derive(Debug)]
pub struct Family {
    pub name: &'static str,
    pub faces: Vec<&'static str>,
}

/// How many families a writing system has.
pub open spec fn family_count(group: Group) -> int {
    match group {
        Group::Latin => 3,
        Group::Han(Region::Simplified) => 2,
        Group::Han(Region::Traditional) => 3,
        Group::Han(Region::Japanese) => 3,
        Group::Hangul => 2,
    }
}

/// What a writing system's families are called.
pub open spec fn family_name(group: Group, at: int) -> Seq<char> {
    match group {
        Group::Latin => if at == 0 {
            "Duo"@
        } else if at == 1 {
            "Mono"@
        } else {
            "Quattro"@
        },
        Group::Han(Region::Simplified) => if at == 0 {
            "黑体"@
        } else {
            "宋体"@
        },
        Group::Han(Region::Traditional) => if at == 0 {
            "黑體"@
        } else if at == 1 {
            "楷體"@
        } else {
            "圓體"@
        },
        Group::Han(Region::Japanese) => if at == 0 {
            "ゴシック"@
        } else if at == 1 {
            "明朝"@
        } else {
            "筑紫明朝"@
        },
        Group::Hangul => if at == 0 {
            "고딕"@
        } else {
            "명조"@
        },
    }
}

/// The file a family draws one of its roles from.
pub open spec fn face_path(group: Group, at: int, role: int) -> Seq<char> {
    match group {
        Group::Latin => if at == 0 {
            if role == 0 {
                "/mnt/us/extensions/karyll/fonts/iAWriterDuoS-Regular.ttf"@
            } else if role == 1 {
                "/mnt/us/extensions/karyll/fonts/iAWriterDuoS-Italic.ttf"@
            } else if role == 2 {
                "/mnt/us/extensions/karyll/fonts/iAWriterDuoS-Bold.ttf"@
            } else {
                "/mnt/us/extensions/karyll/fonts/iAWriterDuoS-BoldItalic.ttf"@
            }
        } else if at == 1 {
            if role == 0 {
                "/mnt/us/extensions/karyll/fonts/iAWriterMonoS-Regular.ttf"@
            } else if role == 1 {
                "/mnt/us/extensions/karyll/fonts/iAWriterMonoS-Italic.ttf"@
            } else if role == 2 {
                "/mnt/us/extensions/karyll/fonts/iAWriterMonoS-Bold.ttf"@
            } else {
                "/mnt/us/extensions/karyll/fonts/iAWriterMonoS-BoldItalic.ttf"@
            }
        } else {
            if role == 0 {
                "/mnt/us/extensions/karyll/fonts/iAWriterQuattroS-Regular.ttf"@
            } else if role == 1 {
                "/mnt/us/extensions/karyll/fonts/iAWriterQuattroS-Italic.ttf"@
            } else if role == 2 {
                "/mnt/us/extensions/karyll/fonts/iAWriterQuattroS-Bold.ttf"@
            } else {
                "/mnt/us/extensions/karyll/fonts/iAWriterQuattroS-BoldItalic.ttf"@
            }
        },
        Group::Han(Region::Simplified) => if at == 0 {
            if role == 0 {
                "/usr/java/lib/fonts/STHeitiMedium.ttf"@
            } else {
                "/usr/java/lib/fonts/STHeitiBold.ttf"@
            }
        } else {
            if role == 0 {
                "/usr/java/lib/fonts/STSongMedium.ttf"@
            } else {
                "/usr/java/lib/fonts/STSongBold.ttf"@
            }
        },
        Group::Han(Region::Traditional) => if at == 0 {
            if role == 0 {
                "/usr/java/lib/fonts/STHeitiTC.ttf"@
            } else {
                "/usr/java/lib/fonts/STHeitiTCBold.ttf"@
            }
        } else if at == 1 {
            if role == 0 {
                "/var/local/font/mnt/zh-Hant_font/fonts/STKaitiTC.ttf"@
            } else {
                "/var/local/font/mnt/zh-Hant_font/fonts/STKaitiTCBold.ttf"@
            }
        } else {
            if role == 0 {
                "/var/local/font/mnt/zh-Hant_font/fonts/STYuanTC.ttf"@
            } else {
                "/var/local/font/mnt/zh-Hant_font/fonts/STYuanTCBold.ttf"@
            }
        },
        Group::Han(Region::Japanese) => if at == 0 {
            if role == 0 {
                "/usr/java/lib/fonts/TBGothicMed_213.ttf"@
            } else {
                "/usr/java/lib/fonts/TBGothicBold_213.ttf"@
            }
        } else if at == 1 {
            if role == 0 {
                "/usr/java/lib/fonts/TBMinchoMedium_213.ttf"@
            } else {
                "/usr/java/lib/fonts/TBMinchoBold_213.ttf"@
            }
        } else {
            if role == 0 {
                "/var/local/font/mnt/ja_font/fonts/TsukuMinPr5-Medium.ttf"@
            } else {
                "/var/local/font/mnt/ja_font/fonts/TsukuMinPr5-Bold.ttf"@
            }
        },
        Group::Hangul => if at == 0 {
            if role == 0 {
                "/usr/java/lib/fonts/NotoSansKR-Regular.otf"@
            } else {
                "/usr/java/lib/fonts/NotoSansKR-Black.otf"@
            }
        } else {
            if role == 0 {
                "/usr/java/lib/fonts/NotoSerifKR-Medium.otf"@
            } else {
                "/usr/java/lib/fonts/NotoSerifKR-Black.otf"@
            }
        },
    }
}

fn count_of(group: Group) -> (r: usize)
    ensures
        r == family_count(group),
{
    match group {
        Group::Latin => 3,
        Group::Han(Region::Simplified) => 2,
        Group::Han(Region::Traditional) => 3,
        Group::Han(Region::Japanese) => 3,
        Group::Hangul => 2,
    }
}

fn name_of(group: Group, at: usize) -> (r: &'static str)
    ensures
        r@ == family_name(group, at as int),
{
    match group {
        Group::Latin => if at == 0 {
            "Duo"
        } else if at == 1 {
            "Mono"
        } else {
            "Quattro"
        },
        Group::Han(Region::Simplified) => if at == 0 {
            "黑体"
        } else {
            "宋体"
        },
        Group::Han(Region::Traditional) => if at == 0 {
            "黑體"
        } else if at == 1 {
            "楷體"
        } else {
            "圓體"
        },
        Group::Han(Region::Japanese) => if at == 0 {
            "ゴシック"
        } else if at == 1 {
            "明朝"
        } else {
            "筑紫明朝"
        },
        Group::Hangul => if at == 0 {
            "고딕"
        } else {
            "명조"
        },
    }
}

fn face_of(group: Group, at: usize, role: usize) -> (r: &'static str)
    ensures
        r@ == face_path(group, at as int, role as int),
{
    match group {
        Group::Latin => if at == 0 {
            if role == 0 {
                "/mnt/us/extensions/karyll/fonts/iAWriterDuoS-Regular.ttf"
            } else if role == 1 {
                "/mnt/us/extensions/karyll/fonts/iAWriterDuoS-Italic.ttf"
            } else if role == 2 {
                "/mnt/us/extensions/karyll/fonts/iAWriterDuoS-Bold.ttf"
            } else {
                "/mnt/us/extensions/karyll/fonts/iAWriterDuoS-BoldItalic.ttf"
            }
        } else if at == 1 {
            if role == 0 {
                "/mnt/us/extensions/karyll/fonts/iAWriterMonoS-Regular.ttf"
            } else if role == 1 {
                "/mnt/us/extensions/karyll/fonts/iAWriterMonoS-Italic.ttf"
            } else if role == 2 {
                "/mnt/us/extensions/karyll/fonts/iAWriterMonoS-Bold.ttf"
            } else {
                "/mnt/us/extensions/karyll/fonts/iAWriterMonoS-BoldItalic.ttf"
            }
        } else {
            if role == 0 {
                "/mnt/us/extensions/karyll/fonts/iAWriterQuattroS-Regular.ttf"
            } else if role == 1 {
                "/mnt/us/extensions/karyll/fonts/iAWriterQuattroS-Italic.ttf"
            } else if role == 2 {
                "/mnt/us/extensions/karyll/fonts/iAWriterQuattroS-Bold.ttf"
            } else {
                "/mnt/us/extensions/karyll/fonts/iAWriterQuattroS-BoldItalic.ttf"
            }
        },
        Group::Han(Region::Simplified) => if at == 0 {
            if role == 0 {
                "/usr/java/lib/fonts/STHeitiMedium.ttf"
            } else {
                "/usr/java/lib/fonts/STHeitiBold.ttf"
            }
        } else {
            if role == 0 {
                "/usr/java/lib/fonts/STSongMedium.ttf"
            } else {
                "/usr/java/lib/fonts/STSongBold.ttf"
            }
        },
        Group::Han(Region::Traditional) => if at == 0 {
            if role == 0 {
                "/usr/java/lib/fonts/STHeitiTC.ttf"
            } else {
                "/usr/java/lib/fonts/STHeitiTCBold.ttf"
            }
        } else if at == 1 {
            if role == 0 {
                "/var/local/font/mnt/zh-Hant_font/fonts/STKaitiTC.ttf"
            } else {
                "/var/local/font/mnt/zh-Hant_font/fonts/STKaitiTCBold.ttf"
            }
        } else {
            if role == 0 {
                "/var/local/font/mnt/zh-Hant_font/fonts/STYuanTC.ttf"
            } else {
                "/var/local/font/mnt/zh-Hant_font/fonts/STYuanTCBold.ttf"
            }
        },
        Group::Han(Region::Japanese) => if at == 0 {
            if role == 0 {
                "/usr/java/lib/fonts/TBGothicMed_213.ttf"
            } else {
                "/usr/java/lib/fonts/TBGothicBold_213.ttf"
            }
        } else if at == 1 {
            if role == 0 {
                "/usr/java/lib/fonts/TBMinchoMedium_213.ttf"
            } else {
                "/usr/java/lib/fonts/TBMinchoBold_213.ttf"
            }
        } else {
            if role == 0 {
                "/var/local/font/mnt/ja_font/fonts/TsukuMinPr5-Medium.ttf"
            } else {
                "/var/local/font/mnt/ja_font/fonts/TsukuMinPr5-Bold.ttf"
            }
        },
        Group::Hangul => if at == 0 {
            if role == 0 {
                "/usr/java/lib/fonts/NotoSansKR-Regular.otf"
            } else {
                "/usr/java/lib/fonts/NotoSansKR-Black.otf"
            }
        } else {
            if role == 0 {
                "/usr/java/lib/fonts/NotoSerifKR-Medium.otf"
            } else {
                "/usr/java/lib/fonts/NotoSerifKR-Black.otf"
            }
        },
    }
}

fn nth_family(group: Group, at: usize) -> (r: Family)
    ensures
        r.name@ == family_name(group, at as int),
        r.faces.len() == group.role_count(),
        forall|k: int|
            0 <= k < r.faces.len() ==> (#[trigger] r.faces[k])@ == face_path(group, at as int, k),
{
    let faces = match group {
        Group::Latin => vec![
            face_of(group, at, 0),
            face_of(group, at, 1),
            face_of(group, at, 2),
            face_of(group, at, 3),
        ],
        _ => vec![face_of(group, at, 0), face_of(group, at, 1)],
    };
    Family { name: name_of(group, at), faces }
}

/// The families a writing system can be set in, the one it opens in first.
pub fn families(group: Group) -> (r: Vec<Family>)
    ensures
        r.len() == family_count(group),
        forall|i: int|
            0 <= i < r.len() ==> (#[trigger] r[i]).name@ == family_name(group, i) && r[i].faces.len()
                == group.role_count(),
        forall|i: int, k: int|
            0 <= i < r.len() && 0 <= k < group.role_count() ==> (#[trigger] r[i].faces[k])@ == face_path(
                group,
                i,
                k,
            ),
{
    let mut out: Vec<Family> = Vec::new();
    let mut i: usize = 0;
    while i < count_of(group)
        invariant
            i <= family_count(group),
            out.len() == i,
            forall|j: int|
                0 <= j < i ==> (#[trigger] out[j]).name@ == family_name(group, j)
                    && out[j].faces.len() == group.role_count(),
            forall|j: int, k: int|
                0 <= j < i && 0 <= k < group.role_count() ==> (#[trigger] out[j].faces[k])@
                    == face_path(group, j, k),
        decreases family_count(group) - i,
    {
        out.push(nth_family(group, i));
        i = i + 1;
    }
    out
}

// ---------------------------------------------------------------------------
// What was chosen
// ---------------------------------------------------------------------------

/// Which family each writing system is set in.
#[derive(Debug, Clone, Copy, PartialEq, Eq)]
pub struct Choices {
    pub picked: [usize; 5],
}

impl Default for Choices {
    fn default() -> (r: Self)
        ensures
            forall|g: Group| #[trigger] r.chosen(g) == 0,
            r.picked@ == seq![0usize, 0, 0, 0, 0],
    {
        let r = Choices { picked: [0, 0, 0, 0, 0] };
        assert(r.picked@ =~= seq![0usize, 0, 0, 0, 0]);
        r
    }
}

/// The family that a choice names: the first where the list has no such place.
pub open spec fn effective(group: Group, chosen: int) -> int {
    if chosen < family_count(group) {
        chosen
    } else {
        0
    }
}

/// What one stored line chooses: a writing system by its token and one of its
/// families by name. Further words on the line are left unread.
pub open spec fn line_choice(line: Seq<char>) -> Option<(Group, int)> {
    let w = words(line);
    if w.len() < 2 {
        None
    } else {
        match group_named(w[0], 0) {
            None => None,
            Some(group) => match family_named(group, w[1], 0) {
                None => None,
                Some(at) => Some((group, at)),
            },
        }
    }
}

/// The first writing system, from `from` on, with a token.
pub open spec fn group_named(token: Seq<char>, from: int) -> Option<Group>
    decreases GROUP_COUNT - from,
{
    if from >= GROUP_COUNT {
        None
    } else if group_nth(from).stored() == token {
        Some(group_nth(from))
    } else {
        group_named(token, from + 1)
    }
}

/// The first family, from `from` on, with a name.
pub open spec fn family_named(group: Group, name: Seq<char>, from: int) -> Option<int>
    decreases family_count(group) - from,
{
    if from >= family_count(group) {
        None
    } else if family_name(group, from) == name {
        Some(from)
    } else {
        family_named(group, name, from + 1)
    }
}

/// What is chosen once some lines have been read, each over the ones before it.
pub open spec fn choices_in(list: Seq<Seq<char>>) -> Seq<usize>
    decreases list.len(),
{
    if list.len() == 0 {
        seq![0usize, 0, 0, 0, 0]
    } else {
        match line_choice(list.last()) {
            Some((group, at)) => choices_in(list.drop_last()).update(group.index(), at as usize),
            None => choices_in(list.drop_last()),
        }
    }
}

/// One stored line for each writing system from `from` on.
pub open spec fn written_from(picked: Seq<usize>, from: int) -> Seq<char>
    decreases GROUP_COUNT - from,
{
    if from >= GROUP_COUNT {
        seq![]
    } else {
        stored_line(group_nth(from), picked[from] as int) + written_from(picked, from + 1)
    }
}

/// The line that stores a choice.
pub open spec fn stored_line(group: Group, chosen: int) -> Seq<char> {
    group.stored() + seq![' '] + family_name(group, effective(group, chosen)) + seq!['\n']
}

fn find_group(token: &Vec<char>) -> (r: Option<Group>)
    ensures
        r == group_named(token@, 0),
{
    let mut i: usize = 0;
    while i < GROUP_COUNT
        invariant
            i <= GROUP_COUNT,
            group_named(token@, 0) == group_named(token@, i as int),
        decreases GROUP_COUNT - i,
    {
        let group = nth_group(i);
        if is_text(token, group.token()) {
            return Some(group);
        }
        i = i + 1;
    }
    None
}

fn find_family(group: Group, name: &Vec<char>) -> (r: Option<usize>)
    ensures
        match r {
            Some(at) => family_named(group, name@, 0) == Some(at as int) && at < family_count(group),
            None => family_named(group, name@, 0) is None,
        },
{
    let mut i: usize = 0;
    while i < count_of(group)
        invariant
            i <= family_count(group),
            family_named(group, name@, 0) == family_named(group, name@, i as int),
        decreases family_count(group) - i,
    {
        if is_text(name, name_of(group, i)) {
            return Some(i);
        }
        i = i + 1;
    }
    None
}

impl Choices {
    pub open spec fn chosen(self, group: Group) -> usize {
        self.picked@[group.index()]
    }

    /// What the choices are written as.
    pub open spec fn written(self) -> Seq<char> {
        written_from(self.picked@, 0)
    }

    pub fn get(&self, group: Group) -> (r: usize)
        ensures
            r == self.chosen(group),
    {
        self.picked[group_at(group)]
    }

    pub fn set(&mut self, group: Group, family: usize)
        ensures
            final(self).picked@ == old(self).picked@.update(group.index(), family),
            final(self).chosen(group) == family,
            forall|other: Group|
                other != group ==> #[trigger] final(self).chosen(other) == old(self).chosen(other),
    {
        let at: usize = group_at(group);
        self.picked[at] = family;
    }

    /// The choices that a text stores. A line that names no writing system or no
    /// family of it changes nothing.
    pub fn parse(text: &str) -> (r: Choices)
        ensures
            r.picked@ == choices_in(lines(text@)),
    {
        let mut choices = Choices::default();
        let text = chars_of(text);
        let list = lines_of(&text);
        let mut i: usize = 0;
        assert(choices.picked@ == choices_in(views(list@).take(0)));
        while i < list.len()
            invariant
                i <= list.len(),
                choices.picked@ == choices_in(views(list@).take(i as int)),
            decreases list.len() - i,
        {
            let ghost done = views(list@).take(i + 1);
            assert(done.drop_last() =~= views(list@).take(i as int));
            assert(done.last() == list@[i as int]@);
            let parts = words_of(&list[i]);
            assert(views(parts@) == words(list@[i as int]@));
            if parts.len() >= 2 {
                assert(views(parts@)[0] == parts@[0]@);
                assert(views(parts@)[1] == parts@[1]@);
                if let Some(group) = find_group(&parts[0]) {
                    if let Some(at) = find_family(group, &parts[1]) {
                        choices.set(group, at);
                    }
                }
            }
            i = i + 1;
        }
        assert(views(list@).take(i as int) =~= views(list@));
        choices
    }

    /// One line for each writing system: its token, and the name of the family
    /// it is set in.
    pub fn render(&self) -> (r: String)
        ensures
            r@ == self.written(),
    {
        let mut out = String::new();
        let mut i: usize = 0;
        assert(out@ + written_from(self.picked@, 0) =~= written_from(self.picked@, 0));
        while i < GROUP_COUNT
            invariant
                i <= GROUP_COUNT,
                out@ + written_from(self.picked@, i as int) == self.written(),
            decreases GROUP_COUNT - i,
        {
            let ghost before = out@;
            let group = nth_group(i);
            let name = name_of(group, pick(group, self.picked[i]));
            out.append(group.token());
            out.push(' ');
            out.append(name);
            out.push('\n');
            assert(out@ =~= before + stored_line(group, self.picked@[i as int] as int));
            assert(out@ + written_from(self.picked@, i + 1) =~= before + (stored_line(
                group,
                self.picked@[i as int] as int,
            ) + written_from(self.picked@, i + 1)));
            i = i + 1;
        }
        assert(out@ + written_from(self.picked@, i as int) =~= out@);
        out
    }
}

pub fn group_at(group: Group) -> (r: usize)
    ensures
        r == group.index(),
        r < GROUP_COUNT,
{
    match group {
        Group::Latin => 0,
        Group::Han(Region::Simplified) => 1,
        Group::Han(Region::Traditional) => 2,
        Group::Han(Region::Japanese) => 3,
        Group::Hangul => 4,
    }
}

fn pick(group: Group, chosen: usize) -> (r: usize)
    ensures
        r == effective(group, chosen as int),
        r < family_count(group),
{
    if chosen < count_of(group) {
        chosen
    } else {
        0
    }
}

/// The family a choice names: the first where the list has no such place.
pub fn family(group: Group, chosen: usize) -> (r: Family)
    ensures
        r.name@ == family_name(group, effective(group, chosen as int)),
        r.faces.len() == group.role_count(),
        forall|k: int|
            0 <= k < r.faces.len() ==> (#[trigger] r.faces[k])@ == face_path(
                group,
                effective(group, chosen as int),
                k,
            ),
{
    nth_family(group, pick(group, chosen))
}

/// Whether `there` can have said `answer` of the file of a name.
pub open spec fn is_there<F: Fn(&'static str) -> bool>(
    there: F,
    path: Seq<char>,
    answer: bool,
) -> bool {
    exists|p: &'static str| p@ == path && #[trigger] there.ensures((p,), answer)
}

/// Every file of a family was found.
pub open spec fn complete<F: Fn(&'static str) -> bool>(there: F, group: Group, at: int) -> bool {
    forall|k: int|
        0 <= k < group.role_count() ==> is_there(there, #[trigger] face_path(group, at, k), true)
}

/// Some file of a family was not.
pub open spec fn lacking<F: Fn(&'static str) -> bool>(there: F, group: Group, at: int) -> bool {
    exists|k: int|
        0 <= k < group.role_count() && is_there(there, #[trigger] face_path(group, at, k), false)
}

fn is_complete<F: Fn(&'static str) -> bool>(group: Group, at: usize, there: &F) -> (r: bool)
    requires
        forall|path: &'static str| there.requires((path,)),
    ensures
        r ==> complete(*there, group, at as int),
        !r ==> lacking(*there, group, at as int),
{
    let family = nth_family(group, at);
    let mut k: usize = 0;
    while k < family.faces.len()
        invariant
            k <= family.faces.len(),
            family.faces.len() == group.role_count(),
            forall|path: &'static str| there.requires((path,)),
            forall|j: int|
                0 <= j < family.faces.len() ==> (#[trigger] family.faces[j])@ == face_path(
                    group,
                    at as int,
                    j,
                ),
            forall|j: int|
                0 <= j < k ==> is_there(*there, #[trigger] face_path(group, at as int, j), true),
        decreases family.faces.len() - k,
    {
        let path = family.faces[k];
        if !there(path) {
            assert(is_there(*there, face_path(group, at as int, k as int), false));
            return false;
        }
        assert(is_there(*there, face_path(group, at as int, k as int), true));
        k = k + 1;
    }
    true
}

/// The families of a writing system whose every file is there, in order. Whether
/// a file is there is asked of `there`.
pub fn available_by<F: Fn(&'static str) -> bool>(group: Group, there: F) -> (r: Vec<usize>)
    requires
        forall|path: &'static str| there.requires((path,)),
    ensures
        forall|i: int, j: int| 0 <= i < j < r.len() ==> r[i] < r[j],
        forall|i: int|
            0 <= i < r.len() ==> (#[trigger] r[i]) < family_count(group) && complete(
                there,
                group,
                r[i] as int,
            ),
        forall|at: int|
            0 <= at < family_count(group) && !r@.contains(at as usize) ==> #[trigger] lacking(
                there,
                group,
                at,
            ),
{
    let mut out: Vec<usize> = Vec::new();
    let mut i: usize = 0;
    while i < count_of(group)
        invariant
            i <= family_count(group),
            forall|path: &'static str| there.requires((path,)),
            forall|a: int, b: int| 0 <= a < b < out.len() ==> out[a] < out[b],
            forall|a: int|
                0 <= a < out.len() ==> (#[trigger] out[a]) < i && complete(
                    there,
                    group,
                    out[a] as int,
                ),
            forall|at: int|
                0 <= at < i && !out@.contains(at as usize) ==> #[trigger] lacking(there, group, at),
        decreases family_count(group) - i,
    {
        let ghost before = out@;
        let whole = is_complete(group, i, &there);
        if whole {
            out.push(i);
            assert(out@.last() == i);
        }
        proof {
            assert forall|at: int|
                0 <= at < i + 1 && !out@.contains(at as usize) implies #[trigger] lacking(
                there,
                group,
                at,
            ) by {
                if at < i {
                    if before.contains(at as usize) {
                        let j = choose|j: int| 0 <= j < before.len() && before[j] == at as usize;
                        assert(out@[j] == at as usize);
                    }
                } else if whole {
                    assert(out@[out@.len() - 1] == at as usize);
                }
            }
        }
        i = i + 1;
    }
    out
}

// ---------------------------------------------------------------------------
// Where each face is kept
// ---------------------------------------------------------------------------

/// Where the faces of each kind begin among the slots.
pub const HAN_AT: usize = 4;

pub const HANGUL_AT: usize = 10;

pub const CHROME_AT: usize = 12;

pub const FALLBACK_AT: usize = 14;

/// How many regional conventions there are.
pub const REGION_COUNT: usize = 3;

/// The place of a role in a family of its own writing system.
pub open spec fn role_index(role: Role) -> int {
    match role {
        Role::Body => 0,
        Role::BodyItalic => 1,
        Role::BodyBold => 2,
        Role::BodyBoldItalic => 3,
        Role::Han => 0,
        Role::HanBold => 1,
        Role::Hangul => 0,
        Role::HangulBold => 1,
        Role::Chrome => 0,
        Role::ChromeBold => 1,
    }
}

/// Whether a writing system has a role.
pub open spec fn covers(group: Group, role: Role) -> bool {
    match group {
        Group::Latin => !role.han() && !role.hangul() && !role.chrome(),
        Group::Han(_) => role.han(),
        Group::Hangul => role.hangul(),
    }
}

/// The two faces of the controls, which no setting moves.
pub open spec fn chrome_face(at: int) -> Seq<char> {
    if at == 0 {
        "/usr/java/lib/fonts/Amazon-Ember-Regular.ttf"@
    } else {
        "/usr/java/lib/fonts/Amazon-Ember-Bold.ttf"@
    }
}

/// The file that a role is drawn from.
pub open spec fn path_of(role: Role, region: Region, choices: Choices) -> Seq<char> {
    if role.chrome() {
        chrome_face(role_index(role))
    } else {
        let group = Group::of_role(role, region);
        face_path(group, effective(group, choices.chosen(group) as int), role_index(role))
    }
}

/// The slot a role's face is kept in. Only the Han roles have one for each
/// convention.
pub open spec fn slot(role: Role, region: Region) -> int {
    if role.chrome() {
        CHROME_AT + role_index(role)
    } else if role.hangul() {
        HANGUL_AT + role_index(role)
    } else if role.han() {
        HAN_AT + role_index(role) * REGION_COUNT + region.index()
    } else {
        role_index(role)
    }
}

/// Where a face of the controls is among the two.
pub fn chrome_at(role: Role) -> (r: Option<usize>)
    ensures
        match r {
            Some(at) => role.chrome() && at == role_index(role),
            None => !role.chrome(),
        },
{
    match role {
        Role::Chrome => Some(0),
        Role::ChromeBold => Some(1),
        _ => None,
    }
}

/// The place of a role in a family of a writing system that has it.
pub fn index_in(group: Group, role: Role) -> (r: usize)
    requires
        covers(group, role),
    ensures
        r == role_index(role),
        r < group.role_count(),
        group.role_nth(r as int) == role,
{
    match role {
        Role::Body => 0,
        Role::BodyItalic => 1,
        Role::BodyBold => 2,
        Role::BodyBoldItalic => 3,
        Role::Han => 0,
        Role::HanBold => 1,
        Role::Hangul => 0,
        Role::HangulBold => 1,
        Role::Chrome => 0,
        Role::ChromeBold => 1,
    }
}

pub fn path_for(role: Role, region: Region, choices: Choices) -> (r: &'static str)
    ensures
        r@ == path_of(role, region, choices),
{
    if let Some(at) = chrome_at(role) {
        return if at == 0 {
            "/usr/java/lib/fonts/Amazon-Ember-Regular.ttf"
        } else {
            "/usr/java/lib/fonts/Amazon-Ember-Bold.ttf"
        };
    }
    let group = Group::of(role, region);
    face_of(group, pick(group, choices.get(group)), index_in(group, role))
}

pub fn slot_of(role: Role, region: Region) -> (r: usize)
    ensures
        r == slot(role, region),
        r < FALLBACK_AT,
{
    if let Some(at) = chrome_at(role) {
        return CHROME_AT + at;
    }
    let group = Group::of(role, region);
    let at: usize = index_in(group, role);
    match group {
        Group::Latin => at,
        Group::Han(region) => HAN_AT + at * REGION_COUNT + region.at(),
        Group::Hangul => HANGUL_AT + at,
    }
}

/// The conventions in the order they are tried under one: itself, then the
/// others.
pub open spec fn tried(region: Region, i: int) -> Region {
    if i == 0 {
        region
    } else if i == 1 {
        if region == Region::Simplified {
            Region::Traditional
        } else {
            Region::Simplified
        }
    } else if region == Region::Japanese {
        Region::Traditional
    } else {
        Region::Japanese
    }
}

/// The slots a role is looked for in: its own, and for a Han role those of the
/// other conventions after it.
pub fn chain_of(role: Role, region: Region) -> (r: Vec<usize>)
    ensures
        r.len() == (if role.han() {
            REGION_COUNT
        } else {
            1
        }),
        forall|i: int| 0 <= i < r.len() ==> #[trigger] r[i] == slot(role, tried(region, i)),
{
    if !role.is_han() {
        return vec![slot_of(role, region)];
    }
    let (second, third) = match region {
        Region::Simplified => (Region::Traditional, Region::Japanese),
        Region::Traditional => (Region::Simplified, Region::Japanese),
        Region::Japanese => (Region::Simplified, Region::Traditional),
    };
    vec![slot_of(role, region), slot_of(role, second), slot_of(role, third)]
}

/// The files of every slot but the fallbacks, in order.
pub fn role_slots(choices: Choices) -> (r: Vec<&'static str>)
    ensures
        r.len() == FALLBACK_AT,
        filled(r@, choices),
{
    let s = Region::Simplified;
    let t = Region::Traditional;
    let j = Region::Japanese;
    let r = vec![
        path_for(Role::Body, s, choices),
        path_for(Role::BodyItalic, s, choices),
        path_for(Role::BodyBold, s, choices),
        path_for(Role::BodyBoldItalic, s, choices),
        path_for(Role::Han, s, choices),
        path_for(Role::Han, t, choices),
        path_for(Role::Han, j, choices),
        path_for(Role::HanBold, s, choices),
        path_for(Role::HanBold, t, choices),
        path_for(Role::HanBold, j, choices),
        path_for(Role::Hangul, s, choices),
        path_for(Role::HangulBold, s, choices),
        path_for(Role::Chrome, s, choices),
        path_for(Role::ChromeBold, s, choices),
    ];
    assert forall|role: Role, region: Region| (#[trigger] r@[slot(role, region)])@ == path_of(
        role,
        region,
        choices,
    ) by {
        if !role.han() {
            region_matters_to_han_alone(role, region, s, choices);
        }
    }
    r
}

/// Every role's slot holds the file the role is drawn from.
pub open spec fn filled(paths: Seq<&'static str>, choices: Choices) -> bool {
    forall|role: Role, region: Region|
        (#[trigger] paths[slot(role, region)])@ == path_of(role, region, choices)
}

/// The faces that are asked for a character no other face has.
pub fn fallback() -> (r: Vec<&'static str>)
    ensures
        r.len() == 2,
        r[0]@ == "/usr/java/lib/fonts/code2000.ttf"@,
        r[1]@ == "/usr/java/lib/fonts/MTChineseSurrogates.ttf"@,
{
    vec![
        "/usr/java/lib/fonts/code2000.ttf",
        "/usr/java/lib/fonts/MTChineseSurrogates.ttf",
    ]
}

/// The roles of a line of the controls.
pub fn latin_row() -> (r: Vec<Role>)
    ensures
        r@ == seq![Role::Chrome],
{
    let r = vec![Role::Chrome];
    assert(r@ =~= seq![Role::Chrome]);
    r
}

/// The character that a role's ink is measured on.
pub fn probe(role: Role) -> (r: char)
    ensures
        r == (if role.hangul() {
            '한'
        } else if role.han() {
            '中'
        } else {
            'H'
        }),
{
    if role.is_hangul() {
        '한'
    } else if role.is_han() {
        '中'
    } else {
        'H'
    }
}

/// The faces in use: the file in each slot, the convention that Han is drawn by,
/// and what was chosen.
pub struct Faces {
    pub paths: Vec<&'static str>,
    pub region: Region,
    pub choices: Choices,
}

impl Faces {
    /// Every slot holds the file that the choices name for it.
    pub open spec fn wf(&self) -> bool {
        self.paths.len() >= FALLBACK_AT && filled(self.paths@, self.choices)
    }

    pub fn new(choices: Choices) -> (r: Faces)
        ensures
            r.wf(),
            r.choices == choices,
            r.region == Region::Simplified,
            r.paths.len() == FALLBACK_AT + 2,
            r.paths[FALLBACK_AT as int]@ == "/usr/java/lib/fonts/code2000.ttf"@,
            r.paths[FALLBACK_AT + 1]@ == "/usr/java/lib/fonts/MTChineseSurrogates.ttf"@,
    {
        let mut paths = role_slots(choices);
        let ghost own = paths@;
        paths.push("/usr/java/lib/fonts/code2000.ttf");
        paths.push("/usr/java/lib/fonts/MTChineseSurrogates.ttf");
        proof {
            assert forall|role: Role, region: Region| (#[trigger] paths@[slot(role, region)])@
                == path_of(role, region, choices) by {
                every_slot_is_in_bounds(role, region);
                assert(own[slot(role, region)]@ == path_of(role, region, choices));
            }
        }
        Faces { paths, region: Region::Simplified, choices }
    }

    /// The family a writing system is set in.
    pub fn family(&self, group: Group) -> (r: Family)
        ensures
            r.name@ == family_name(group, effective(group, self.choices.chosen(group) as int)),
            r.faces.len() == group.role_count(),
            forall|k: int|
                0 <= k < r.faces.len() ==> (#[trigger] r.faces[k])@ == face_path(
                    group,
                    effective(group, self.choices.chosen(group) as int),
                    k,
                ),
    {
        family(group, self.choices.get(group))
    }

    /// Set a writing system in another family. The slots that now hold another
    /// file come back: what was measured from them is out of date.
    pub fn set_family(&mut self, group: Group, chosen: usize) -> (r: Vec<usize>)
        requires
            old(self).wf(),
        ensures
            final(self).wf(),
            final(self).region == old(self).region,
            final(self).choices.picked@ == old(self).choices.picked@.update(group.index(), chosen),
            final(self).paths.len() == old(self).paths.len(),
            forall|i: int|
                0 <= i < final(self).paths.len() ==> (r@.contains(i as usize) <==> (
                #[trigger] final(self).paths[i])@ != old(self).paths[i]@),
            forall|i: int|
                0 <= i < r.len() ==> slot_of_group(group, #[trigger] r[i] as int, group.role_count()),
    {
        let mut changed: Vec<usize> = Vec::new();
        self.choices.set(group, chosen);
        let roles = group.roles();
        let region = group.region();
        let mut i: usize = 0;
        while i < roles.len()
            invariant
                i <= roles.len(),
                roles.len() == group.role_count(),
                region == group.home(),
                forall|k: int| 0 <= k < roles.len() ==> roles[k] == group.role_nth(k),
                self.region == old(self).region,
                self.choices.picked@ == old(self).choices.picked@.update(group.index(), chosen),
                forall|other: Group|
                    other != group ==> #[trigger] self.choices.chosen(other) == old(
                        self,
                    ).choices.chosen(other),
                self.paths.len() == old(self).paths.len(),
                old(self).wf(),
                forall|role: Role, way: Region|
                    moved(group, role, way, i as int) ==> (#[trigger] self.paths@[slot(role, way)])@
                        == path_of(role, way, self.choices),
                forall|s: int|
                    0 <= s < self.paths.len() && !slot_of_group(group, s, i as int)
                        ==> #[trigger] self.paths[s] == old(self).paths[s],
                forall|s: int|
                    0 <= s < self.paths.len() ==> (changed@.contains(s as usize) <==> (
                    #[trigger] self.paths[s])@ != old(self).paths[s]@),
                forall|a: int|
                    0 <= a < changed.len() ==> slot_of_group(
                        group,
                        #[trigger] changed[a] as int,
                        group.role_count(),
                    ),
            decreases roles.len() - i,
        {
            let ghost before = *self;
            let ghost noted = changed@;
            let at: usize = slot_of(roles[i], region);
            let path = path_for(roles[i], region, self.choices);
            proof {
                assert(roles[i as int] == group.role_nth(i as int));
                assert(!slot_of_group(group, at as int, i as int)) by {
                    if slot_of_group(group, at as int, i as int) {
                        let k = choose|k: int|
                            0 <= k < i && at == slot(#[trigger] group.role_nth(k), group.home());
                        roles_have_their_own_slots(group, k, i as int);
                    }
                }
            }
            if !crate::text::same_text(self.paths[at], path) {
                self.paths[at] = path;
                changed.push(at);
                assert(slot_of_group(group, at as int, group.role_count())) by {
                    assert(at == slot(group.role_nth(i as int), group.home()));
                }
                assert(changed@.last() == at);
            }
            proof {
                assert forall|role: Role, way: Region|
                    moved(group, role, way, i + 1) implies (#[trigger] self.paths@[slot(role, way)])@
                    == path_of(role, way, self.choices) by {
                    every_slot_is_in_bounds(role, way);
                    if !moved(group, role, way, i as int) {
                        assert(role == roles[i as int]);
                        if !role.han() {
                            region_matters_to_han_alone(role, way, region, self.choices);
                        }
                    } else {
                        if slot(role, way) == at {
                            slots_are_their_own(role, way, roles[i as int], region);
                        }
                    }
                }
                assert forall|s: int|
                    0 <= s < self.paths.len() && !slot_of_group(group, s, i + 1) implies #[trigger] self.paths[s]
                    == old(self).paths[s] by {
                    assert(slot(group.role_nth(i as int), group.home()) == at);
                    if slot_of_group(group, s, i as int) {
                        let k = choose|k: int|
                            0 <= k < i && s == slot(#[trigger] group.role_nth(k), group.home());
                        assert(slot_of_group(group, s, i + 1));
                    }
                }
                assert forall|s: int| 0 <= s < self.paths.len() implies (changed@.contains(s as usize)
                    <==> (#[trigger] self.paths[s])@ != old(self).paths[s]@) by {
                    if changed@.len() > noted.len() {
                        assert(changed@ =~= noted.push(at));
                        if changed@.contains(s as usize) && !noted.contains(s as usize) {
                            let a = choose|a: int| 0 <= a < changed@.len() && changed@[a] == s as usize;
                            assert(a == noted.len());
                        }
                        if noted.contains(s as usize) {
                            let a = choose|a: int| 0 <= a < noted.len() && noted[a] == s as usize;
                            assert(changed@[a] == s as usize);
                        }
                        assert(changed@[noted.len() as int] == at);
                        if s == at {
                            assert(before.paths[s] == old(self).paths[s]);
                        } else {
                            assert(self.paths[s] == before.paths[s]);
                        }
                    }
                }
            }
            i = i + 1;
        }
        proof {
            assert forall|role: Role, way: Region| (#[trigger] self.paths@[slot(role, way)])@
                == path_of(role, way, self.choices) by {
                every_slot_is_in_bounds(role, way);
                if moved(group, role, way, group.role_count()) {
                } else {
                    lemma_not_moved(group, role, way);
                    assert(self.paths@[slot(role, way)] == old(self).paths@[slot(role, way)]);
                    assert(path_of(role, way, self.choices) == path_of(
                        role,
                        way,
                        old(self).choices,
                    ));
                }
            }
        }
        changed
    }

    pub fn set_region(&mut self, region: Region)
        requires
            old(self).wf(),
        ensures
            final(self).wf(),
            final(self).region == region,
            final(self).choices == old(self).choices,
            final(self).paths == old(self).paths,
    {
        self.region = region;
    }

    /// The slots a character of a role is looked for in, in order: the role's own
    /// under this convention, then the fallbacks.
    pub fn search_order(&self, role: Role) -> (r: Vec<usize>)
        requires
            self.wf(),
        ensures
            ({
                let own = if role.han() {
                    REGION_COUNT as int
                } else {
                    1
                };
                &&& r.len() == own + self.paths.len() - FALLBACK_AT
                &&& forall|i: int|
                    0 <= i < own ==> #[trigger] r[i] == slot(role, tried(self.region, i))
                &&& forall|i: int| own <= i < r.len() ==> #[trigger] r[i] == FALLBACK_AT + i - own
            }),
    {
        let mut order = chain_of(role, self.region);
        let own: usize = order.len();
        let ghost chain = order@;
        let mut i: usize = FALLBACK_AT;
        while i < self.paths.len()
            invariant
                FALLBACK_AT <= i <= self.paths.len(),
                order.len() == own + i - FALLBACK_AT,
                chain.len() == own,
                forall|k: int| 0 <= k < own ==> #[trigger] order[k] == chain[k],
                forall|k: int| own <= k < order.len() ==> #[trigger] order[k] == FALLBACK_AT + k - own,
            decreases self.paths.len() - i,
        {
            order.push(i);
            i = i + 1;
        }
        order
    }
}

/// The slots that a row of some roles is measured by: for a Han role those of every
/// convention, and one more for the face the row stands on.
pub open spec fn row_slots(roles: Seq<Role>) -> Seq<usize>
    decreases roles.len(),
{
    if roles.len() == 0 {
        seq![]
    } else {
        let role = roles.last();
        row_slots(roles.drop_last()) + (if role.han() {
            seq![
                slot(role, Region::Simplified) as usize,
                slot(role, Region::Traditional) as usize,
                slot(role, Region::Japanese) as usize,
            ]
        } else {
            seq![slot(role, Region::Simplified) as usize]
        })
    }
}

/// The face a row stands on: the controls' where it has one of theirs.
pub open spec fn anchor(roles: Seq<Role>) -> Role {
    if exists|i: int| 0 <= i < roles.len() && (#[trigger] roles[i]).chrome() {
        Role::Chrome
    } else {
        Role::Body
    }
}

fn push_slots(out: &mut Vec<usize>, role: Role)
    ensures
        final(out)@ == old(out)@ + (if role.han() {
            seq![
                slot(role, Region::Simplified) as usize,
                slot(role, Region::Traditional) as usize,
                slot(role, Region::Japanese) as usize,
            ]
        } else {
            seq![slot(role, Region::Simplified) as usize]
        }),
{
    out.push(slot_of(role, Region::Simplified));
    if role.is_han() {
        out.push(slot_of(role, Region::Traditional));
        out.push(slot_of(role, Region::Japanese));
    }
    assert(out@ =~= old(out)@ + (if role.han() {
        seq![
            slot(role, Region::Simplified) as usize,
            slot(role, Region::Traditional) as usize,
            slot(role, Region::Japanese) as usize,
        ]
    } else {
        seq![slot(role, Region::Simplified) as usize]
    }));
}

/// The slots that a row of some roles is measured by, the fallbacks aside. The
/// convention in use does not come into it: a row is as high under each.
pub fn measured_slots(roles: &Vec<Role>) -> (r: Vec<usize>)
    ensures
        r@ == row_slots(roles@.push(anchor(roles@))),
{
    let mut out: Vec<usize> = Vec::new();
    let mut chrome = false;
    let mut i: usize = 0;
    while i < roles.len()
        invariant
            i <= roles.len(),
            out@ == row_slots(roles@.take(i as int)),
            chrome == exists|k: int| 0 <= k < i && (#[trigger] roles@[k]).chrome(),
        decreases roles.len() - i,
    {
        let role = roles[i];
        assert(roles@.take(i + 1).drop_last() =~= roles@.take(i as int));
        if role.is_chrome() {
            assert(roles@[i as int].chrome());
            chrome = true;
        }
        push_slots(&mut out, role);
        i = i + 1;
    }
    assert(roles@.take(i as int) =~= roles@);
    let last = if chrome {
        Role::Chrome
    } else {
        Role::Body
    };
    push_slots(&mut out, last);
    assert(roles@.push(last).drop_last() =~= roles@);
    out
}

/// Whether a role's slot is one of the first `n` that a change of family looks
/// at.
spec fn moved(group: Group, role: Role, region: Region, n: int) -> bool {
    exists|k: int|
        0 <= k < n && role == #[trigger] group.role_nth(k) && (role.han() ==> region == group.home())
}

/// Whether a slot is that of one of a writing system's first `n` roles.
pub open spec fn slot_of_group(group: Group, at: int, n: int) -> bool {
    exists|k: int| 0 <= k < n && at == slot(#[trigger] group.role_nth(k), group.home())
}

/// A role that a change of family leaves alone keeps its slot and its family.
proof fn lemma_not_moved(group: Group, role: Role, region: Region)
    requires
        !moved(group, role, region, group.role_count()),
    ensures
        !slot_of_group(group, slot(role, region), group.role_count()),
        role.chrome() || Group::of_role(role, region) != group,
{
    if slot_of_group(group, slot(role, region), group.role_count()) {
        let k = choose|k: int|
            0 <= k < group.role_count() && slot(role, region) == slot(
                #[trigger] group.role_nth(k),
                group.home(),
            );
        slots_are_their_own(role, region, group.role_nth(k), group.home());
        assert(role == group.role_nth(k));
        assert(moved(group, role, region, group.role_count()));
    }
    if !role.chrome() && Group::of_role(role, region) == group {
        assert(role == group.role_nth(role_index(role)));
        assert(moved(group, role, region, group.role_count()));
    }
}

proof fn roles_have_their_own_slots(group: Group, a: int, b: int)
    requires
        0 <= a < b < group.role_count(),
    ensures
        slot(group.role_nth(a), group.home()) != slot(group.role_nth(b), group.home()),
{
}

// ---------------------------------------------------------------------------
// What holds of every face
// ---------------------------------------------------------------------------

/// Every role's slot lies before the fallbacks.
pub proof fn every_slot_is_in_bounds(role: Role, region: Region)
    ensures
        0 <= slot(role, region) < FALLBACK_AT,
{
}

/// No two roles share a slot, and the Han roles have one for each convention.
pub proof fn slots_are_their_own(a: Role, under: Region, b: Role, beside: Region)
    requires
        slot(a, under) == slot(b, beside),
    ensures
        a == b,
        a.han() ==> under == beside,
{
}

/// The convention moves the Han roles and no other.
pub proof fn region_matters_to_han_alone(role: Role, a: Region, b: Region, choices: Choices)
    requires
        !role.han(),
    ensures
        path_of(role, a, choices) == path_of(role, b, choices),
        slot(role, a) == slot(role, b),
{
}

/// The controls are drawn in their own faces, whatever is chosen.
pub proof fn chrome_is_pinned(role: Role, region: Region, a: Choices, b: Choices)
    requires
        role.chrome(),
    ensures
        path_of(role, region, a) == path_of(role, region, b),
        path_of(role, region, a) == chrome_face(role_index(role)),
        slot(role, region) == CHROME_AT + role_index(role),
{
}

/// A Han role reaches the face of every convention, its own first.
pub proof fn a_han_role_reaches_every_convention(role: Role, region: Region, other: Region)
    requires
        role.han(),
    ensures
        tried(region, 0) == region,
        exists|i: int| 0 <= i < REGION_COUNT && #[trigger] tried(region, i) == other,
{
    assert(tried(region, 0) == other || tried(region, 1) == other || tried(region, 2) == other);
}

/// A choice past the end of the list is the first family.
pub proof fn a_choice_past_the_end_falls_back(role: Role, region: Region, choices: Choices, other: Choices)
    requires
        !role.chrome(),
        choices.chosen(Group::of_role(role, region)) >= family_count(Group::of_role(role, region)),
        other.chosen(Group::of_role(role, region)) == 0,
    ensures
        path_of(role, region, choices) == path_of(role, region, other),
{
}

/// A run of characters with no white space in it, and something in it.
spec fn solid(s: Seq<char>) -> bool {
    s.len() > 0 && forall|i: int| 0 <= i < s.len() ==> !white(#[trigger] s[i])
}

proof fn lemma_tokens(group: Group)
    ensures
        solid(group.stored()),
{
    reveal_strlit("latin");
    reveal_strlit("sc");
    reveal_strlit("tc");
    reveal_strlit("ja");
    reveal_strlit("ko");
}

proof fn lemma_names(group: Group, at: int)
    requires
        0 <= at < family_count(group),
    ensures
        solid(family_name(group, at)),
{
    reveal_strlit("Duo");
    reveal_strlit("Mono");
    reveal_strlit("Quattro");
    reveal_strlit("黑体");
    reveal_strlit("宋体");
    reveal_strlit("黑體");
    reveal_strlit("楷體");
    reveal_strlit("圓體");
    reveal_strlit("ゴシック");
    reveal_strlit("明朝");
    reveal_strlit("筑紫明朝");
    reveal_strlit("고딕");
    reveal_strlit("명조");
}

/// No two writing systems share a token.
proof fn lemma_tokens_differ(a: int, b: int)
    requires
        0 <= a < b < GROUP_COUNT,
    ensures
        group_nth(a).stored() != group_nth(b).stored(),
{
    reveal_strlit("latin");
    reveal_strlit("sc");
    reveal_strlit("tc");
    reveal_strlit("ja");
    reveal_strlit("ko");
    assert("latin"@.len() == 5);
    assert("sc"@[0] == 's');
    assert("tc"@[0] == 't');
    assert("ja"@[0] == 'j');
    assert("ko"@[0] == 'k');
}

/// No two families of one writing system share a name.
proof fn lemma_names_differ(group: Group, a: int, b: int)
    requires
        0 <= a < b < family_count(group),
    ensures
        family_name(group, a) != family_name(group, b),
{
    reveal_strlit("Duo");
    reveal_strlit("Mono");
    reveal_strlit("Quattro");
    reveal_strlit("黑体");
    reveal_strlit("宋体");
    reveal_strlit("黑體");
    reveal_strlit("楷體");
    reveal_strlit("圓體");
    reveal_strlit("ゴシック");
    reveal_strlit("明朝");
    reveal_strlit("筑紫明朝");
    reveal_strlit("고딕");
    reveal_strlit("명조");
    assert("Duo"@[0] == 'D');
    assert("Mono"@[0] == 'M');
    assert("Quattro"@[0] == 'Q');
    assert("黑体"@[0] == '黑');
    assert("宋体"@[0] == '宋');
    assert("黑體"@[0] == '黑');
    assert("楷體"@[0] == '楷');
    assert("圓體"@[0] == '圓');
    assert("ゴシック"@[0] == 'ゴ');
    assert("明朝"@[0] == '明');
    assert("筑紫明朝"@[0] == '筑');
    assert("고딕"@[0] == '고');
    assert("명조"@[0] == '명');
}

proof fn lemma_group_named(i: int, from: int)
    requires
        0 <= from <= i < GROUP_COUNT,
    ensures
        group_named(group_nth(i).stored(), from) == Some(group_nth(i)),
    decreases i - from,
{
    if from < i {
        lemma_tokens_differ(from, i);
        lemma_group_named(i, from + 1);
    }
}

proof fn lemma_family_named(group: Group, at: int, from: int)
    requires
        0 <= from <= at < family_count(group),
    ensures
        family_named(group, family_name(group, at), from) == Some(at),
    decreases at - from,
{
    if from < at {
        lemma_names_differ(group, from, at);
        lemma_family_named(group, at, from + 1);
    }
}

/// A word, a space and a word are two words.
proof fn lemma_two_words(a: Seq<char>, b: Seq<char>)
    requires
        solid(a),
        solid(b),
    ensures
        words(a + seq![' '] + b) == seq![a, b],
{
    let s = a + seq![' '] + b;
    assert(!white(s[0])) by {
        assert(s[0] == a[0]);
    }
    assert forall|i: int| 0 <= i < a.len() implies !white(#[trigger] s[i]) by {
        assert(s[i] == a[i]);
    }
    assert(s[a.len() as int] == ' ');
    crate::text::lemma_word_len(s, a.len());
    assert(s.take(a.len() as int) =~= a);
    let rest = s.skip(a.len() as int);
    assert(rest[0] == ' ');
    assert(rest.drop_first() =~= b);
    crate::text::lemma_word_len(b, b.len());
    assert(words(b) == seq![b]);
    assert(words(rest) == seq![b]);
    assert(seq![a] + seq![b] =~= seq![a, b]);
}

/// The lines of a line and more are the line and the lines of the rest.
proof fn lemma_line_first(line: Seq<char>, rest: Seq<char>)
    requires
        line.len() > 0,
        forall|i: int| 0 <= i < line.len() ==> line[i] != '\n',
        line.last() != '\r',
    ensures
        lines(line + seq!['\n'] + rest) == seq![line] + lines(rest),
{
    let s = line + seq!['\n'] + rest;
    crate::text::lemma_until(s, '\n', line.len());
    assert(s.take(line.len() as int) =~= line);
    assert(s.skip((line.len() + 1) as int) =~= rest);
}

/// What is read of the lines from the writing system at `from` on.
proof fn lemma_written(picked: Seq<usize>, from: int)
    requires
        picked.len() == GROUP_COUNT,
        0 <= from <= GROUP_COUNT,
    ensures
        lines(written_from(picked, from)).len() == GROUP_COUNT - from,
        forall|i: int|
            from <= i < GROUP_COUNT ==> line_choice(
                #[trigger] lines(written_from(picked, from))[i - from],
            ) == Some((group_nth(i), effective(group_nth(i), picked[i] as int))),
    decreases GROUP_COUNT - from,
{
    if from < GROUP_COUNT {
        let group = group_nth(from);
        let at = effective(group, picked[from] as int);
        let token = group.stored();
        let name = family_name(group, at);
        let line = token + seq![' '] + name;
        let rest = written_from(picked, from + 1);
        lemma_tokens(group);
        lemma_names(group, at);
        lemma_two_words(token, name);
        assert forall|i: int| 0 <= i < line.len() implies line[i] != '\n' by {
            if i < token.len() {
                assert(line[i] == token[i]);
            } else if i > token.len() {
                assert(line[i] == name[i - token.len() - 1]);
            }
        }
        assert(line.last() == name[name.len() - 1]);
        assert(written_from(picked, from) =~= line + seq!['\n'] + rest);
        lemma_line_first(line, rest);
        lemma_group_named(from, 0);
        lemma_family_named(group, at, 0);
        lemma_written(picked, from + 1);
        let all = lines(written_from(picked, from));
        assert(all =~= seq![line] + lines(rest));
        assert forall|i: int| from <= i < GROUP_COUNT implies line_choice(
            #[trigger] all[i - from],
        ) == Some((group_nth(i), effective(group_nth(i), picked[i] as int))) by {
            if i > from {
                assert(all[i - from] == lines(rest)[i - (from + 1)]);
            }
        }
    }
}

/// Choices that are written down and read back are the choices that were
/// written, with the first family in place of one past the end of its list.
pub proof fn choices_survive_being_written_down(choices: Choices)
    ensures
        ({
            let back = choices_in(lines(choices.written()));
            &&& back.len() == GROUP_COUNT
            &&& forall|g: Group|
                #[trigger] back[g.index()] as int == effective(g, choices.chosen(g) as int)
        }),
{
    let list = lines(choices.written());
    lemma_written(choices.picked@, 0);
    lemma_read_back(choices, 5);
    assert(list.take(5) =~= list);
    assert forall|g: Group| #[trigger] choices_in(list)[g.index()] as int == effective(
        g,
        choices.chosen(g) as int,
    ) by {
        assert(group_nth(g.index()) == g);
    }
}

proof fn lemma_read_back(choices: Choices, n: int)
    requires
        0 <= n <= GROUP_COUNT,
    ensures
        ({
            let back = choices_in(lines(choices.written()).take(n));
            &&& back.len() == GROUP_COUNT
            &&& forall|i: int|
                0 <= i < n ==> (#[trigger] back[i]) as int == effective(
                    group_nth(i),
                    choices.picked@[i] as int,
                )
        }),
    decreases n,
{
    let list = lines(choices.written());
    lemma_written(choices.picked@, 0);
    if n > 0 {
        lemma_read_back(choices, n - 1);
        assert(list.take(n).drop_last() =~= list.take(n - 1));
        assert(list.take(n).last() == list[n - 1 - 0]);
        assert(line_choice(list[n - 1 - 0]) == Some(
            (group_nth(n - 1), effective(group_nth(n - 1), choices.picked@[n - 1] as int)),
        ));
        assert(group_nth(n - 1).index() == n - 1);
    }
}

// ---------------------------------------------------------------------------
// The vertical measures in a font file
// ---------------------------------------------------------------------------

/// A face's height above and below the baseline and the gap between lines, in
/// units of which `units` make an em.
#[derive(Debug, Clone, Copy, PartialEq, Eq, Structural)]
pub struct Vertical {
    pub units: u16,
    pub ascent: i16,
    pub descent: i16,
    pub gap: i16,
}

/// The number that two bytes are, the high one first.
pub open spec fn be16(s: Seq<u8>, at: int) -> int {
    s[at] as int * 256 + s[at + 1] as int
}

/// The number that four bytes are, the high one first.
pub open spec fn be32(s: Seq<u8>, at: int) -> int {
    be16(s, at) * 65536 + be16(s, at + 2)
}

/// The same two bytes with the top bit as a sign.
pub open spec fn signed(n: int) -> int {
    if n < 32768 {
        n
    } else {
        n - 65536
    }
}

/// Whether a file starts as a font of one face does.
pub open spec fn is_font(s: Seq<u8>) -> bool {
    s.len() >= 12 && {
        let tag = s.take(4);
        tag == seq![0u8, 1, 0, 0] || tag == seq![116u8, 114, 117, 101] || tag == seq![79u8, 84, 84, 79]
    }
}

/// Where the first table with a tag begins, of the `n` entries of a directory
/// from `from` on.
pub open spec fn table_at(s: Seq<u8>, tag: Seq<u8>, n: int, from: int) -> Option<int>
    decreases n - from,
{
    if from >= n {
        None
    } else if s.subrange(from * 16, from * 16 + 4) == tag {
        Some(be32(s, from * 16 + 8))
    } else {
        table_at(s, tag, n, from + 1)
    }
}

pub open spec fn head_tag() -> Seq<u8> {
    seq![104u8, 101, 97, 100]
}

pub open spec fn hhea_tag() -> Seq<u8> {
    seq![104u8, 104, 101, 97]
}

/// The measures in a font file. Nothing where it is no font of one face, where a
/// table is missing or cut off, or where the em has no units.
pub open spec fn vertical_of(s: Seq<u8>) -> Option<Vertical> {
    if !is_font(s) {
        None
    } else {
        let n = be16(s, 4);
        if s.len() < 12 + n * 16 {
            None
        } else {
            let directory = s.skip(12);
            match (table_at(directory, head_tag(), n, 0), table_at(directory, hhea_tag(), n, 0)) {
                (Some(head), Some(hhea)) => if s.len() < head + 20 || be16(s, head + 18) == 0
                    || s.len() < hhea + 10 {
                    None
                } else {
                    Some(
                        Vertical {
                            units: be16(s, head + 18) as u16,
                            ascent: signed(be16(s, hhea + 4)) as i16,
                            descent: signed(be16(s, hhea + 6)) as i16,
                            gap: signed(be16(s, hhea + 8)) as i16,
                        },
                    )
                },
                _ => None,
            }
        }
    }
}

fn read16(bytes: &Vec<u8>, at: usize) -> (r: u16)
    requires
        at + 2 <= bytes.len(),
    ensures
        r == be16(bytes@, at as int),
{
    (bytes[at] as u16) * 256 + bytes[at + 1] as u16
}

fn read_signed(bytes: &Vec<u8>, at: usize) -> (r: i16)
    requires
        at + 2 <= bytes.len(),
    ensures
        r == signed(be16(bytes@, at as int)),
{
    let n: i32 = read16(bytes, at) as i32;
    if n < 32768 {
        n as i16
    } else {
        (n - 65536) as i16
    }
}

/// How many tables a font's header announces; nothing where it is not the header
/// of a font of one face.
pub fn tables_in(header: &Vec<u8>) -> (r: Option<u16>)
    ensures
        match r {
            Some(n) => is_font(header@) && n == be16(header@, 4),
            None => !is_font(header@),
        },
{
    if header.len() < 12 {
        return None;
    }
    let (a, b, c, d) = (header[0], header[1], header[2], header[3]);
    let ghost tag = header@.take(4);
    assert(tag =~= seq![a, b, c, d]);
    assert(tag[0] == a && tag[1] == b && tag[2] == c && tag[3] == d);
    let plain = a == 0 && b == 1 && c == 0 && d == 0;
    let apple = a == 116 && b == 114 && c == 117 && d == 101;
    let outline = a == 79 && b == 84 && c == 84 && d == 79;
    proof {
        let x = seq![0u8, 1, 0, 0];
        let y = seq![116u8, 114, 117, 101];
        let z = seq![79u8, 84, 84, 79];
        assert(tag == x ==> x[0] == a && x[1] == b && x[2] == c && x[3] == d);
        assert(tag == y ==> y[0] == a && y[1] == b && y[2] == c && y[3] == d);
        assert(tag == z ==> z[0] == a && z[1] == b && z[2] == c && z[3] == d);
        if plain {
            assert(tag =~= x);
        }
        if apple {
            assert(tag =~= y);
        }
        if outline {
            assert(tag =~= z);
        }
    }
    if plain || apple || outline {
        Some(read16(header, 4))
    } else {
        None
    }
}

/// Where the first table with a tag begins, by a directory of `n` entries.
pub fn offset_in(directory: &Vec<u8>, n: u16, tag: [u8; 4]) -> (r: Option<u32>)
    requires
        directory.len() >= n * 16,
    ensures
        match r {
            Some(at) => table_at(directory@, tag@, n as int, 0) == Some(at as int),
            None => table_at(directory@, tag@, n as int, 0) is None,
        },
{
    let mut i: usize = 0;
    while i < n as usize
        invariant
            i <= n,
            directory.len() >= n * 16,
            table_at(directory@, tag@, n as int, 0) == table_at(directory@, tag@, n as int, i as int),
        decreases n - i,
    {
        let at: usize = i * 16;
        let here = directory[at] == tag[0] && directory[at + 1] == tag[1] && directory[at + 2]
            == tag[2] && directory[at + 3] == tag[3];
        proof {
            let entry = directory@.subrange(i * 16, i * 16 + 4);
            assert(entry[0] == directory@[at as int] && entry[1] == directory@[at + 1] && entry[2]
                == directory@[at + 2] && entry[3] == directory@[at + 3]);
            if here {
                assert(entry =~= tag@);
            }
        }
        if here {
            let high: u32 = read16(directory, at + 8) as u32;
            let low: u32 = read16(directory, at + 10) as u32;
            return Some(high * 65536 + low);
        }
        i = i + 1;
    }
    None
}

/// The vertical measures in the bytes of a font file.
pub fn vertical_in(bytes: &Vec<u8>) -> (r: Option<Vertical>)
    ensures
        r == vertical_of(bytes@),
{
    let n: u16 = match tables_in(bytes) {
        Some(n) => n,
        None => return None,
    };
    if bytes.len() < 12 + n as usize * 16 {
        return None;
    }
    let mut directory: Vec<u8> = Vec::new();
    let mut i: usize = 12;
    while i < bytes.len()
        invariant
            12 <= i <= bytes.len(),
            directory@ == bytes@.subrange(12, i as int),
        decreases bytes.len() - i,
    {
        directory.push(bytes[i]);
        i = i + 1;
    }
    assert(directory@ =~= bytes@.skip(12));
    let head = offset_in(&directory, n, [104, 101, 97, 100]);
    let hhea = offset_in(&directory, n, [104, 104, 101, 97]);
    assert([104u8, 101, 97, 100]@ =~= head_tag());
    assert([104u8, 104, 101, 97]@ =~= hhea_tag());
    match (head, hhea) {
        (Some(head), Some(hhea)) => {
            if (bytes.len() as u64) < head as u64 + 20 {
                return None;
            }
            let units: u16 = read16(bytes, head as usize + 18);
            if units == 0 || (bytes.len() as u64) < hhea as u64 + 10 {
                return None;
            }
            Some(
                Vertical {
                    units,
                    ascent: read_signed(bytes, hhea as usize + 4),
                    descent: read_signed(bytes, hhea as usize + 6),
                    gap: read_signed(bytes, hhea as usize + 8),
                },
            )
        },
        _ => None,
    }
}

/// The faces of the writer's own families are named by the family and by what is done to it.
pub proof fn a_latin_face_is_named_by_its_family(at: int, role: int)
    requires
        0 <= at < 3,
        0 <= role < 4,
    ensures
        face_path(Group::Latin, at, role) == "/mnt/us/extensions/karyll/fonts/iAWriter"@ + family_name(
            Group::Latin,
            at,
        ) + "S-"@ + (match Group::Latin.role_nth(role) {
            Role::Body => "Regular"@,
            Role::BodyItalic => "Italic"@,
            Role::BodyBold => "Bold"@,
            _ => "BoldItalic"@,
        }) + ".ttf"@,
{
    reveal_strlit("/mnt/us/extensions/karyll/fonts/iAWriter");
    reveal_strlit("S-");
    reveal_strlit("Regular");
    reveal_strlit("Italic");
    reveal_strlit("Bold");
    reveal_strlit("BoldItalic");
    reveal_strlit(".ttf");
    reveal_strlit("Duo");
    reveal_strlit("Mono");
    reveal_strlit("Quattro");
    reveal_strlit("/mnt/us/extensions/karyll/fonts/iAWriterDuoS-Regular.ttf");
    reveal_strlit("/mnt/us/extensions/karyll/fonts/iAWriterDuoS-Italic.ttf");
    reveal_strlit("/mnt/us/extensions/karyll/fonts/iAWriterDuoS-Bold.ttf");
    reveal_strlit("/mnt/us/extensions/karyll/fonts/iAWriterDuoS-BoldItalic.ttf");
    reveal_strlit("/mnt/us/extensions/karyll/fonts/iAWriterMonoS-Regular.ttf");
    reveal_strlit("/mnt/us/extensions/karyll/fonts/iAWriterMonoS-Italic.ttf");
    reveal_strlit("/mnt/us/extensions/karyll/fonts/iAWriterMonoS-Bold.ttf");
    reveal_strlit("/mnt/us/extensions/karyll/fonts/iAWriterMonoS-BoldItalic.ttf");
    reveal_strlit("/mnt/us/extensions/karyll/fonts/iAWriterQuattroS-Regular.ttf");
    reveal_strlit("/mnt/us/extensions/karyll/fonts/iAWriterQuattroS-Italic.ttf");
    reveal_strlit("/mnt/us/extensions/karyll/fonts/iAWriterQuattroS-Bold.ttf");
    reveal_strlit("/mnt/us/extensions/karyll/fonts/iAWriterQuattroS-BoldItalic.ttf");
    assert(face_path(Group::Latin, at, role) =~= "/mnt/us/extensions/karyll/fonts/iAWriter"@
        + family_name(Group::Latin, at) + "S-"@ + (match Group::Latin.role_nth(role) {
        Role::Body => "Regular"@,
        Role::BodyItalic => "Italic"@,
        Role::BodyBold => "Bold"@,
        _ => "BoldItalic"@,
    }) + ".ttf"@);
}

/// A role is set in the faces of its own writing system, and a group has as many roles as it
/// has faces in a family, each once.
pub proof fn a_role_is_set_in_its_own_group(role: Role, region: Region, group: Group, i: int, j: int)
    requires
        0 <= i < j < group.role_count(),
    ensures
        Group::of_role(role, region) == Group::Latin <==> !role.han() && !role.hangul(),
        Group::of_role(role, region) == Group::Hangul <==> role.hangul(),
        role.han() && !role.hangul() ==> Group::of_role(role, region) == Group::Han(region),
        !role.chrome() ==> covers(Group::of_role(role, region), role),
        group.role_nth(i) != group.role_nth(j),
        covers(group, group.role_nth(i)) && covers(group, group.role_nth(j)),
        role_index(group.role_nth(i)) == i,
        role_index(group.role_nth(j)) == j,
        group_nth(group.index()) == group,
{
}

/// The other conventions are tried in their order, each once.
pub proof fn conventions_are_tried_once(region: Region)
    ensures
        tried(region, 0) == region,
        tried(region, 1) != region,
        tried(region, 2) != region,
        tried(region, 1).index() < tried(region, 2).index(),
{
}

/// Sixteen bits that count from the middle: what is above half of their range is below
/// nought, by the whole of it.
pub proof fn sixteen_bits_with_a_sign(n: int)
    requires
        0 <= n < 65536,
    ensures
        -32768 <= signed(n) < 32768,
        signed(n) == n || signed(n) + 65536 == n,
{
}

/// A table is found by its tag at the place that the directory gives, whatever the
/// directory lists after it, and past entries of other tags.
pub proof fn a_table_is_found_by_its_tag(directory: Seq<u8>, tag: Seq<u8>, n: int, entry: int, from: int)
    requires
        0 <= from <= entry < n,
        directory.len() >= n * 16,
        directory.subrange(entry * 16, entry * 16 + 4) == tag,
        forall|i: int|
            from <= i < entry ==> #[trigger] directory.subrange(i * 16, i * 16 + 4) != tag,
    ensures
        table_at(directory, tag, n, from) == Some(
            directory[entry * 16 + 8] * 16777216 + directory[entry * 16 + 9] * 65536 + directory[entry
                * 16 + 10] * 256 + directory[entry * 16 + 11],
        ),
    decreases entry - from,
{
    if from < entry {
        assert(directory.subrange(from * 16, from * 16 + 4) != tag);
        a_table_is_found_by_its_tag(directory, tag, n, entry, from + 1);
    }
}

/// The two tables that the measures are read from go by their names.
pub proof fn the_tags_are_names()
    ensures
        head_tag().len() == 4 && hhea_tag().len() == 4,
        forall|i: int| 0 <= i < 4 ==> #[trigger] head_tag()[i] as char == "head"@[i],
        forall|i: int| 0 <= i < 4 ==> #[trigger] hhea_tag()[i] as char == "hhea"@[i],
{
    reveal_strlit("head");
    reveal_strlit("hhea");
}

/// A group goes by its own word and is found by it.
pub proof fn a_group_is_found_by_its_word(group: Group)
    ensures
        group_named(group.stored(), 0) == Some(group),
        group.labelled().len() > 0,
        group == Group::Hangul ==> 0xac00 <= group.labelled()[0] as int <= 0xd7a3,
        group is Han ==> 0x4e00 <= group.labelled()[0] as int <= 0x9fff,
        group == Group::Latin ==> group.labelled()[0] == 'L',
        group == Group::Han(Region::Simplified) ==> group.stored() == seq!['s', 'c']
            && group.labelled()[0] == '简',
        group == Group::Han(Region::Traditional) ==> group.stored() == seq!['t', 'c']
            && group.labelled()[0] == '繁',
        group == Group::Han(Region::Japanese) ==> group.stored() == seq!['j', 'a']
            && group.labelled()[0] == '日',
        group == Group::Hangul ==> group.stored() == seq!['k', 'o'],
{
    reveal_strlit("Latin");
    reveal_strlit("简体");
    reveal_strlit("繁體");
    reveal_strlit("日本語");
    reveal_strlit("한글");
    reveal_strlit("latin");
    reveal_strlit("sc");
    reveal_strlit("tc");
    reveal_strlit("ja");
    reveal_strlit("ko");
    assert("sc"@ =~= seq!['s', 'c']);
    assert("tc"@ =~= seq!['t', 'c']);
    assert("ja"@ =~= seq!['j', 'a']);
    assert("ko"@ =~= seq!['k', 'o']);
    assert("latin"@[0] == 'l' && "sc"@[0] == 's' && "tc"@[0] == 't' && "ja"@[0] == 'j' && "ko"@[0]
        == 'k');
    reveal_with_fuel(group_named, 6);
}

} // verus!
