//! The user settings of the shell that its logic reads: the root folder of
//! the projects and up to four executables started with the shell.

use vstd::prelude::*;
use crate::command::{
    CONFIG_AUTO_START_EXE_1, CONFIG_AUTO_START_EXE_2, CONFIG_AUTO_START_EXE_3, CONFIG_AUTO_START_EXE_4,
    CONFIG_WORKING_DIR,
};
use crate::text::{chars_equal, chars_of, lower, lower_chars, trim, trim_chars, string_of};

verus! {

/// The number of auto-start executable slots.
pub const AUTO_START_SLOT_COUNT: usize = 4;

/// The settings read by the shell's logic.
pub struct AppConfig {
    pub working_dir: String,
    pub auto_start_exe_1: String,
    pub auto_start_exe_2: String,
    pub auto_start_exe_3: String,
    pub auto_start_exe_4: String,
}

/// A text setting that an input object can edit.
#[derive(PartialEq, Eq, Structural, Clone, Copy, Debug)]
pub enum ConfigField {
    WorkingDir,
    AutoStartExe1,
    AutoStartExe2,
    AutoStartExe3,
    AutoStartExe4,
}

/// The setting bound to an input object's (trimmed) command.
pub open spec fn bound_field(command: Seq<char>) -> Option<ConfigField> {
    let c = trim(command);
    if c == CONFIG_WORKING_DIR@ {
        Some(ConfigField::WorkingDir)
    } else if c == CONFIG_AUTO_START_EXE_1@ {
        Some(ConfigField::AutoStartExe1)
    } else if c == CONFIG_AUTO_START_EXE_2@ {
        Some(ConfigField::AutoStartExe2)
    } else if c == CONFIG_AUTO_START_EXE_3@ {
        Some(ConfigField::AutoStartExe3)
    } else if c == CONFIG_AUTO_START_EXE_4@ {
        Some(ConfigField::AutoStartExe4)
    } else {
        None
    }
}

/// The setting edited by the input object bound to `command`, if any.
pub fn bound_input_field(command: &str) -> (r: Option<ConfigField>)
    ensures
        r == bound_field(command@),
{
    let c = trim_chars(chars_of(command).as_slice());
    if chars_equal(c.as_slice(), chars_of(CONFIG_WORKING_DIR).as_slice()) {
        Some(ConfigField::WorkingDir)
    } else if chars_equal(c.as_slice(), chars_of(CONFIG_AUTO_START_EXE_1).as_slice()) {
        Some(ConfigField::AutoStartExe1)
    } else if chars_equal(c.as_slice(), chars_of(CONFIG_AUTO_START_EXE_2).as_slice()) {
        Some(ConfigField::AutoStartExe2)
    } else if chars_equal(c.as_slice(), chars_of(CONFIG_AUTO_START_EXE_3).as_slice()) {
        Some(ConfigField::AutoStartExe3)
    } else if chars_equal(c.as_slice(), chars_of(CONFIG_AUTO_START_EXE_4).as_slice()) {
        Some(ConfigField::AutoStartExe4)
    } else {
        None
    }
}

/// The auto-start slot (0 to 3) that a field holds.
pub open spec fn field_of_slot(slot: int) -> Option<ConfigField> {
    if slot == 0 {
        Some(ConfigField::AutoStartExe1)
    } else if slot == 1 {
        Some(ConfigField::AutoStartExe2)
    } else if slot == 2 {
        Some(ConfigField::AutoStartExe3)
    } else if slot == 3 {
        Some(ConfigField::AutoStartExe4)
    } else {
        None
    }
}

impl AppConfig {
    pub open spec fn value_of(&self, f: ConfigField) -> Seq<char> {
        match f {
            ConfigField::WorkingDir => self.working_dir@,
            ConfigField::AutoStartExe1 => self.auto_start_exe_1@,
            ConfigField::AutoStartExe2 => self.auto_start_exe_2@,
            ConfigField::AutoStartExe3 => self.auto_start_exe_3@,
            ConfigField::AutoStartExe4 => self.auto_start_exe_4@,
        }
    }

    /// Settings with a root folder and no auto-start executable.
    pub fn new(working_dir: String) -> (r: Self)
        ensures
            r.working_dir@ == working_dir@,
            forall|s: int| 0 <= s < 4 ==> r.value_of(#[trigger] field_of_slot(s).unwrap()) == Seq::<char>::empty(),
    {
        AppConfig {
            working_dir,
            auto_start_exe_1: String::new(),
            auto_start_exe_2: String::new(),
            auto_start_exe_3: String::new(),
            auto_start_exe_4: String::new(),
        }
    }

    /// The current text of a setting.
    pub fn field(&self, f: ConfigField) -> (r: &String)
        ensures
            r@ == self.value_of(f),
    {
        match f {
            ConfigField::WorkingDir => &self.working_dir,
            ConfigField::AutoStartExe1 => &self.auto_start_exe_1,
            ConfigField::AutoStartExe2 => &self.auto_start_exe_2,
            ConfigField::AutoStartExe3 => &self.auto_start_exe_3,
            ConfigField::AutoStartExe4 => &self.auto_start_exe_4,
        }
    }

    /// Replaces the text of one setting; the others are kept.
    pub fn set_field(&mut self, f: ConfigField, value: String)
        ensures
            final(self).value_of(f) == value@,
            forall|g: ConfigField| g != f ==> final(self).value_of(g) == old(self).value_of(g),
    {
        match f {
            ConfigField::WorkingDir => self.working_dir = value,
            ConfigField::AutoStartExe1 => self.auto_start_exe_1 = value,
            ConfigField::AutoStartExe2 => self.auto_start_exe_2 = value,
            ConfigField::AutoStartExe3 => self.auto_start_exe_3 = value,
            ConfigField::AutoStartExe4 => self.auto_start_exe_4 = value,
        }
    }

    /// The executable configured in `slot` (0 to 3), `None` for another slot.
    pub fn auto_start_path(&self, slot: usize) -> (r: Option<&str>)
        ensures
            match field_of_slot(slot as int) {
                Some(f) => r.is_some() && r.unwrap()@ == self.value_of(f),
                None => r.is_none(),
            },
    {
        match slot {
            0 => Some(self.auto_start_exe_1.as_str()),
            1 => Some(self.auto_start_exe_2.as_str()),
            2 => Some(self.auto_start_exe_3.as_str()),
            3 => Some(self.auto_start_exe_4.as_str()),
            _ => None,
        }
    }

    /// Sets the executable of `slot`; `false`, with nothing changed, for a
    /// slot beyond the fourth.
    pub fn set_auto_start_path(&mut self, slot: usize, path: String) -> (r: bool)
        ensures
            r == field_of_slot(slot as int).is_some(),
            match field_of_slot(slot as int) {
                Some(f) => final(self).value_of(f) == path@ && forall|g: ConfigField|
                    g != f ==> final(self).value_of(g) == old(self).value_of(g),
                None => *final(self) == *old(self),
            },
    {
        match slot {
            0 => self.auto_start_exe_1 = path,
            1 => self.auto_start_exe_2 = path,
            2 => self.auto_start_exe_3 = path,
            3 => self.auto_start_exe_4 = path,
            _ => return false,
        }
        true
    }

    /// The executables to start, with their slots, in slot order: each
    /// configured path trimmed, the empty ones left out.
    pub fn auto_start_targets(&self) -> (r: Vec<(usize, String)>)
        ensures
            r@.len() <= 4,
            forall|k: int| 0 <= k < r@.len() ==> #[trigger] r@[k].0 < 4 && r@[k].1@ == trim(
                self.value_of(field_of_slot(r@[k].0 as int).unwrap()),
            ) && r@[k].1@.len() > 0,
            forall|a: int, b: int| 0 <= a < b < r@.len() ==> #[trigger] r@[a].0 < #[trigger] r@[b].0,
            forall|s: int|
                0 <= s < 4 && trim(self.value_of(#[trigger] field_of_slot(s).unwrap())).len() > 0 ==> exists|k: int|
                    0 <= k < r@.len() && r@[k].0 == s,
    {
        let mut r: Vec<(usize, String)> = Vec::new();
        let mut slot: usize = 0;
        while slot < AUTO_START_SLOT_COUNT
            invariant
                slot <= 4,
                r@.len() <= slot,
                forall|k: int| 0 <= k < r@.len() ==> #[trigger] r@[k].0 < slot && r@[k].1@ == trim(
                    self.value_of(field_of_slot(r@[k].0 as int).unwrap()),
                ) && r@[k].1@.len() > 0,
                forall|a: int, b: int| 0 <= a < b < r@.len() ==> #[trigger] r@[a].0 < #[trigger] r@[b].0,
                forall|s: int|
                    0 <= s < slot && trim(self.value_of(#[trigger] field_of_slot(s).unwrap())).len() > 0 ==> exists|k: int|
                        0 <= k < r@.len() && r@[k].0 == s,
            decreases 4 - slot,
        {
            let raw = self.auto_start_path(slot).unwrap();
            let t = trim_chars(chars_of(raw).as_slice());
            if t.len() > 0 {
                let ghost before = r@;
                r.push((slot, string_of(t.as_slice())));
                assert(r@[before.len() as int].0 == slot);
                assert forall|s: int|
                    0 <= s < slot + 1 && trim(self.value_of(#[trigger] field_of_slot(s).unwrap())).len() > 0 implies exists|k: int|
                        0 <= k < r@.len() && r@[k].0 == s by {
                    if s < slot {
                        let k = choose|k: int| 0 <= k < before.len() && before[k].0 == s;
                        assert(r@[k] == before[k]);
                    } else {
                        assert(r@[before.len() as int].0 == s);
                    }
                }
            }
            slot += 1;
        }
        r
    }
}

/// `str::eq_ignore_ascii_case`.
pub open spec fn eq_ignore_ascii_case(a: Seq<char>, b: Seq<char>) -> bool {
    lower(a) == lower(b)
}

/// Whether a file extension (as `Path::extension` gives it) names an
/// executable: `exe` in any ASCII case.
pub fn is_exe_extension(extension: Option<&str>) -> (r: bool)
    ensures
        r == match extension {
            Some(e) => eq_ignore_ascii_case(e@, seq!['e', 'x', 'e']),
            None => false,
        },
{
    match extension {
        Some(e) => {
            let l = lower_chars(chars_of(e).as_slice());
            let mut exe: Vec<char> = Vec::new();
            exe.push('e');
            exe.push('x');
            exe.push('e');
            assert(lower(exe@) =~= exe@);
            assert(exe@ =~= seq!['e', 'x', 'e']);
            chars_equal(l.as_slice(), exe.as_slice())
        },
        None => false,
    }
}

/// Each of the four auto-start slots is a setting of its own: setting one
/// (`set_auto_start_path`) leaves the others as they were.
pub proof fn lemma_auto_start_slots_distinct(a: int, b: int)
    requires
        0 <= a < 4,
        0 <= b < 4,
    ensures
        field_of_slot(a) is Some,
        a != b ==> field_of_slot(a).unwrap() != field_of_slot(b).unwrap(),
        field_of_slot(a).unwrap() != ConfigField::WorkingDir,
{
}

/// The input bound to `config.auto_start_exe.<k>` edits the executable of
/// slot `k` (counted from 1), that is, the field of slot `k - 1`.
pub proof fn lemma_auto_start_input_slot(command: Seq<char>, k: int)
    requires
        1 <= k <= 4,
        trim(command) == "config.auto_start_exe."@ + seq![seq!['1', '2', '3', '4'][k - 1]],
    ensures
        bound_field(command) == field_of_slot(k - 1),
{
    reveal_strlit("config.auto_start_exe.");
    reveal_strlit("config.working_dir");
    reveal_strlit("config.auto_start_exe.1");
    reveal_strlit("config.auto_start_exe.2");
    reveal_strlit("config.auto_start_exe.3");
    reveal_strlit("config.auto_start_exe.4");
    let c = trim(command);
    assert(c.len() == 23);
    assert(CONFIG_WORKING_DIR@.len() == 18);
    if k == 1 {
        assert(c =~= CONFIG_AUTO_START_EXE_1@);
    } else if k == 2 {
        assert(c =~= CONFIG_AUTO_START_EXE_2@);
        assert(c[22] != CONFIG_AUTO_START_EXE_1@[22]);
    } else if k == 3 {
        assert(c =~= CONFIG_AUTO_START_EXE_3@);
        assert(c[22] != CONFIG_AUTO_START_EXE_1@[22]);
        assert(c[22] != CONFIG_AUTO_START_EXE_2@[22]);
    } else {
        assert(c =~= CONFIG_AUTO_START_EXE_4@);
        assert(c[22] != CONFIG_AUTO_START_EXE_1@[22]);
        assert(c[22] != CONFIG_AUTO_START_EXE_2@[22]);
        assert(c[22] != CONFIG_AUTO_START_EXE_3@[22]);
    }
}

/// Two input commands bound to the same setting are the same command (once
/// trimmed): no two inputs edit one setting.
pub proof fn lemma_bound_field_injective(a: Seq<char>, b: Seq<char>)
    requires
        bound_field(a) is Some,
        bound_field(a) == bound_field(b),
    ensures
        trim(a) == trim(b),
{
}

/// The input bound to `config.working_dir` edits the root folder setting.
pub proof fn lemma_working_dir_input(command: Seq<char>)
    requires
        trim(command) == "config.working_dir"@,
    ensures
        bound_field(command) == Some(ConfigField::WorkingDir),
{
    reveal_strlit("config.working_dir");
    assert(trim(command) =~= CONFIG_WORKING_DIR@);
}

} // verus!
