//! The viewer's frame-to-frame decisions: which character is chosen, which
//! asset files belong to it, when the viewer starts afresh, and how a
//! decompiled script reaches the state indexes.
use vstd::prelude::*;
use crate::states::{script_index, Entry};
use crate::window::BoxesWindow;

verus! {

broadcast use vstd::string::group_string_axioms;

/// The characters on offer, by the three-letter code of their files.
pub open spec fn roster() -> Seq<Seq<char>> {
    seq![
        "SOL"@, "KYK"@, "MAY"@, "AXL"@, "CHP"@, "POT"@, "FAU"@, "MLL"@, "ZAT"@, "RAM"@,
        "LEO"@, "NAG"@, "GIO"@, "ANJ"@, "INO"@, "GLD"@, "JKO"@, "COS"@, "BKN"@, "TST"@,
    ]
}

/// The characters on offer, by the three-letter code of their files.
pub fn character_list() -> (r: Vec<String>)
    ensures
        r@.map_values(|s: String| s@) == roster(),
{
    let mut r: Vec<String> = Vec::new();
    r.push(String::from_str("SOL"));
    r.push(String::from_str("KYK"));
    r.push(String::from_str("MAY"));
    r.push(String::from_str("AXL"));
    r.push(String::from_str("CHP"));
    r.push(String::from_str("POT"));
    r.push(String::from_str("FAU"));
    r.push(String::from_str("MLL"));
    r.push(String::from_str("ZAT"));
    r.push(String::from_str("RAM"));
    r.push(String::from_str("LEO"));
    r.push(String::from_str("NAG"));
    r.push(String::from_str("GIO"));
    r.push(String::from_str("ANJ"));
    r.push(String::from_str("INO"));
    r.push(String::from_str("GLD"));
    r.push(String::from_str("JKO"));
    r.push(String::from_str("COS"));
    r.push(String::from_str("BKN"));
    r.push(String::from_str("TST"));
    assert(r@.map_values(|s: String| s@) =~= roster());
    r
}

/// The collision archive of the character `name`.
pub fn pac_path(name: &str) -> (r: String)
    ensures
        r@ == "pacs/COL_"@ + name@ + ".pac"@,
{
    let mut r = String::from_str("pacs/COL_");
    r.append(name);
    r.append(".pac");
    r
}

/// The compiled behaviour script of the character `name`.
pub fn char_script_path(name: &str) -> (r: String)
    ensures
        r@ == "scripts/BBS_"@ + name@ + ".bbscript"@,
{
    let mut r = String::from_str("scripts/BBS_");
    r.append(name);
    r.append(".bbscript");
    r
}

/// The compiled effect script of the character `name`.
pub fn ef_script_path(name: &str) -> (r: String)
    ensures
        r@ == "scripts/BBS_"@ + name@ + "EF.bbscript"@,
{
    let mut r = String::from_str("scripts/BBS_");
    r.append(name);
    r.append("EF.bbscript");
    r
}

/// What the viewer application keeps between frames, besides the loaded assets.
pub struct MyApp {
    /// The box viewer.
    pub boxes_window: BoxesWindow,
    /// Whether the chosen character's collision data has been read into the viewer.
    pub loaded: bool,
    /// The chosen character.
    pub selected: String,
    /// The characters on offer.
    pub ggst_file_list: Vec<String>,
    /// Whether another character was chosen in this frame.
    pub file_changed: bool,
    /// Whether the character script could not be decompiled or indexed.
    pub char_script_failed: bool,
    /// Whether the effect script could not be decompiled or indexed.
    pub ef_script_failed: bool,
}

impl MyApp {
    /// The viewer is well formed.
    pub open spec fn wf(&self) -> bool {
        self.boxes_window.wf()
    }

    /// An application with nothing chosen or loaded.
    pub fn new() -> (r: MyApp)
        ensures
            r.wf(),
            r.boxes_window.is_reset(),
            !r.loaded,
            r.selected@ == Seq::<char>::empty(),
            r.ggst_file_list@.len() == 0,
            !r.file_changed,
            !r.char_script_failed,
            !r.ef_script_failed,
    {
        MyApp {
            boxes_window: BoxesWindow::new(),
            loaded: false,
            selected: String::new(),
            ggst_file_list: Vec::new(),
            file_changed: false,
            char_script_failed: false,
            ef_script_failed: false,
        }
    }

    /// Starts a frame: the first character is chosen where none is, the
    /// roster is filled where it is empty, and a viewer whose collision data
    /// is not loaded starts afresh.
    pub fn begin_frame(&mut self)
        requires
            old(self).wf(),
        ensures
            final(self).wf(),
            final(self).selected@ == (if old(self).selected@.len() == 0 {
                "SOL"@
            } else {
                old(self).selected@
            }),
            old(self).ggst_file_list@.len() == 0 ==> final(self).ggst_file_list@.map_values(
                |s: String| s@) == roster(),
            old(self).ggst_file_list@.len() != 0 ==> final(self).ggst_file_list
                == old(self).ggst_file_list,
            !old(self).loaded ==> final(self).boxes_window.is_reset()
                && !final(self).char_script_failed && !final(self).ef_script_failed,
            old(self).loaded ==> final(self).boxes_window == old(self).boxes_window
                && final(self).char_script_failed == old(self).char_script_failed
                && final(self).ef_script_failed == old(self).ef_script_failed,
            final(self).loaded == old(self).loaded,
            !final(self).file_changed,
    {
        proof {
            reveal_strlit("SOL");
        }
        if self.selected.as_str().is_empty() {
            self.selected = String::from_str("SOL");
        }
        if self.ggst_file_list.len() == 0 {
            self.ggst_file_list = character_list();
        }
        if !self.loaded {
            self.boxes_window.reset();
            self.char_script_failed = false;
            self.ef_script_failed = false;
        }
        self.file_changed = false;
    }

    /// Chooses the character `name`: its collision data is to be read anew.
    pub fn choose_character(&mut self, name: String)
        requires
            old(self).wf(),
        ensures
            final(self).wf(),
            *final(self) == (MyApp { selected: name, loaded: false, file_changed: true, ..*old(self) }),
    {
        self.selected = name;
        self.loaded = false;
        self.file_changed = true;
    }

    /// Whether the character script is still to be decompiled.
    pub fn needs_char_script(&self) -> (r: bool)
        ensures
            r == (self.boxes_window.char_script@.len() == 0 && !self.char_script_failed),
    {
        self.boxes_window.char_script.as_str().is_empty() && !self.char_script_failed
    }

    /// Whether the effect script is still to be decompiled.
    pub fn needs_ef_script(&self) -> (r: bool)
        ensures
            r == (self.boxes_window.ef_script@.len() == 0 && !self.ef_script_failed),
    {
        self.boxes_window.ef_script.as_str().is_empty() && !self.ef_script_failed
    }

    /// Takes the decompiled character script, `None` where decompiling failed,
    /// and indexes it. A failure of either step is remembered.
    pub fn accept_char_script(&mut self, decompiled: Option<String>)
        requires
            old(self).wf(),
        ensures
            final(self).wf(),
            match decompiled {
                None => final(self).char_script_failed && final(self).boxes_window
                    == old(self).boxes_window,
                Some(text) => {
                    &&& final(self).char_script_failed == script_index(text@) is Err
                    &&& final(self).boxes_window.states@ == match script_index(text@) {
                        Ok(v) => v,
                        Err(_) => Seq::<Entry>::empty(),
                    }
                    &&& final(self).boxes_window == (BoxesWindow {
                        char_script: text,
                        states: final(self).boxes_window.states,
                        ..old(self).boxes_window
                    })
                },
            },
            *final(self) == (MyApp {
                boxes_window: final(self).boxes_window,
                char_script_failed: final(self).char_script_failed,
                ..*old(self)
            }),
    {
        match decompiled {
            None => {
                self.char_script_failed = true;
            },
            Some(text) => {
                self.boxes_window.char_script = text;
                let r = self.boxes_window.collect_states();
                self.char_script_failed = r.is_err();
            },
        }
    }

    /// Takes the decompiled effect script, `None` where decompiling failed,
    /// and indexes it. A failure of either step is remembered.
    pub fn accept_ef_script(&mut self, decompiled: Option<String>)
        requires
            old(self).wf(),
        ensures
            final(self).wf(),
            match decompiled {
                None => final(self).ef_script_failed && final(self).boxes_window
                    == old(self).boxes_window,
                Some(text) => {
                    &&& final(self).ef_script_failed == script_index(text@) is Err
                    &&& final(self).boxes_window.ef_states@ == match script_index(text@) {
                        Ok(v) => v,
                        Err(_) => Seq::<Entry>::empty(),
                    }
                    &&& final(self).boxes_window == (BoxesWindow {
                        ef_script: text,
                        ef_states: final(self).boxes_window.ef_states,
                        ..old(self).boxes_window
                    })
                },
            },
            *final(self) == (MyApp {
                boxes_window: final(self).boxes_window,
                ef_script_failed: final(self).ef_script_failed,
                ..*old(self)
            }),
    {
        match decompiled {
            None => {
                self.ef_script_failed = true;
            },
            Some(text) => {
                self.boxes_window.ef_script = text;
                let r = self.boxes_window.collect_ef_states();
                self.ef_script_failed = r.is_err();
            },
        }
    }

    /// The collision data at hand is that of the character chosen when the
    /// frame began: tells whether it is still to be read into the viewer, and
    /// marks it as read. Where another character was chosen in this frame, the
    /// data belongs to the previous one: it is neither read nor marked, so the
    /// next frame starts the viewer afresh for the new character.
    pub fn collision_ready(&mut self) -> (r: bool)
        ensures
            r == (!old(self).loaded && !old(self).file_changed),
            final(self).loaded == (old(self).loaded || !old(self).file_changed),
            *final(self) == (MyApp { loaded: final(self).loaded, ..*old(self) }),
    {
        if self.file_changed {
            return false;
        }
        let r = !self.loaded;
        self.loaded = true;
        r
    }
}

} // verus!
