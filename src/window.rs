//! What the box viewer remembers between frames: the two decompiled scripts,
//! their state indexes, the state on show and the sprite selected. Canvas
//! geometry and images belong to the drawing side.
use vstd::prelude::*;
use crate::lines::{extract_selected_sprite_name, sprite_name};
use crate::states::{build_index, script_index, Entry, ScriptError, StateIndex};

verus! {

broadcast use vstd::string::group_string_axioms;

/// The viewer's state.
pub struct BoxesWindow {
    /// The sprite whose boxes are on show, or empty.
    pub selected: String,
    /// The name of the frame last drawn, or empty.
    pub current_name: String,
    /// Whether hitbox records are read in the older layout.
    pub is_gbvs: bool,
    /// The decompiled character script, or empty while none is loaded.
    pub char_script: String,
    /// The decompiled effect script, or empty while none is loaded.
    pub ef_script: String,
    /// The index of the character script.
    pub states: StateIndex,
    /// The index of the effect script.
    pub ef_states: StateIndex,
    /// The name and text of the state on show; an empty name when none is.
    pub current_state: (String, String),
    /// Whether the list shows the effect script's states.
    pub is_ef: bool,
    /// Whether the state list is on show.
    pub show_state_list: bool,
    /// Whether the text of the chosen state is on show.
    pub show_state: bool,
    /// Whether the canvas is to be recentred before the next drawing.
    pub box_changed: bool,
    /// Whether the rendered image is to be made again.
    pub reset_image: bool,
}

impl BoxesWindow {
    /// Both indexes have distinct names.
    pub open spec fn wf(&self) -> bool {
        self.states.wf() && self.ef_states.wf()
    }

    /// The index that the state list shows.
    pub open spec fn visible(&self) -> Seq<Entry> {
        if self.is_ef {
            self.ef_states@
        } else {
            self.states@
        }
    }

    /// The state of a viewer that has nothing loaded and nothing selected.
    pub open spec fn is_reset(&self) -> bool {
        &&& self.wf()
        &&& self.selected@ == Seq::<char>::empty()
        &&& self.current_name@ == Seq::<char>::empty()
        &&& self.char_script@ == Seq::<char>::empty()
        &&& self.ef_script@ == Seq::<char>::empty()
        &&& self.states@ == Seq::<Entry>::empty()
        &&& self.ef_states@ == Seq::<Entry>::empty()
        &&& self.current_state.0@ == Seq::<char>::empty()
        &&& self.current_state.1@ == Seq::<char>::empty()
        &&& self.show_state_list
        &&& self.show_state
        &&& self.box_changed
    }

    /// A viewer with nothing loaded, that reads records in the current layout.
    pub fn new() -> (r: BoxesWindow)
        ensures
            r.is_reset(),
            !r.is_gbvs,
            !r.is_ef,
            !r.reset_image,
    {
        BoxesWindow {
            selected: String::new(),
            current_name: String::new(),
            is_gbvs: false,
            char_script: String::new(),
            ef_script: String::new(),
            states: StateIndex::new(),
            ef_states: StateIndex::new(),
            current_state: (String::new(), String::new()),
            is_ef: false,
            show_state_list: true,
            show_state: true,
            box_changed: true,
            reset_image: false,
        }
    }

    /// Forgets the scripts, their indexes and the selection; the record layout,
    /// the list shown and the image request stay.
    pub fn reset(&mut self)
        ensures
            final(self).is_reset(),
            final(self).is_gbvs == old(self).is_gbvs,
            final(self).is_ef == old(self).is_ef,
            final(self).reset_image == old(self).reset_image,
    {
        self.selected = String::new();
        self.current_name = String::new();
        self.char_script = String::new();
        self.ef_script = String::new();
        self.states = StateIndex::new();
        self.ef_states = StateIndex::new();
        self.current_state = (String::new(), String::new());
        self.show_state_list = true;
        self.show_state = true;
        self.box_changed = true;
    }

    /// The index that the state list shows: that of the effect script where
    /// effect states are chosen, otherwise that of the character script.
    pub fn visible_states(&self) -> (r: &StateIndex)
        ensures
            r@ == self.visible(),
            self.wf() ==> r.wf(),
    {
        if self.is_ef {
            &self.ef_states
        } else {
            &self.states
        }
    }

    /// Indexes the character script afresh. A malformed script leaves an empty
    /// index and is reported.
    pub fn collect_states(&mut self) -> (r: Result<(), ScriptError>)
        requires
            old(self).wf(),
        ensures
            final(self).wf(),
            match r {
                Ok(()) => script_index(old(self).char_script@) == Ok::<Seq<Entry>, ScriptError>(
                    final(self).states@,
                ),
                Err(e) => script_index(old(self).char_script@) == Err::<Seq<Entry>, ScriptError>(e)
                    && final(self).states@ == Seq::<Entry>::empty(),
            },
            *final(self) == (BoxesWindow { states: final(self).states, ..*old(self) }),
    {
        match build_index(self.char_script.as_str()) {
            Ok(index) => {
                self.states = index;
                Ok(())
            },
            Err(e) => {
                self.states = StateIndex::new();
                Err(e)
            },
        }
    }

    /// Indexes the effect script afresh. A malformed script leaves an empty
    /// index and is reported.
    pub fn collect_ef_states(&mut self) -> (r: Result<(), ScriptError>)
        requires
            old(self).wf(),
        ensures
            final(self).wf(),
            match r {
                Ok(()) => script_index(old(self).ef_script@) == Ok::<Seq<Entry>, ScriptError>(
                    final(self).ef_states@,
                ),
                Err(e) => script_index(old(self).ef_script@) == Err::<Seq<Entry>, ScriptError>(e)
                    && final(self).ef_states@ == Seq::<Entry>::empty(),
            },
            *final(self) == (BoxesWindow { ef_states: final(self).ef_states, ..*old(self) }),
    {
        match build_index(self.ef_script.as_str()) {
            Ok(index) => {
                self.ef_states = index;
                Ok(())
            },
            Err(e) => {
                self.ef_states = StateIndex::new();
                Err(e)
            },
        }
    }

    /// Puts entry `i` of the listed index on show and clears the sprite selection.
    pub fn select_state(&mut self, i: usize)
        requires
            old(self).wf(),
            i < old(self).visible().len(),
        ensures
            final(self).wf(),
            (final(self).current_state.0@, final(self).current_state.1@) == old(self).visible()[i as int],
            final(self).selected@ == Seq::<char>::empty(),
            final(self).current_name@ == Seq::<char>::empty(),
            *final(self) == (BoxesWindow {
                current_state: final(self).current_state,
                selected: final(self).selected,
                current_name: final(self).current_name,
                ..*old(self)
            }),
    {
        let blocks = if self.is_ef {
            self.ef_states.blocks()
        } else {
            self.states.blocks()
        };
        assert(blocks@[i as int]@ == self.visible()[i as int]);
        let name = blocks[i].name.clone();
        let body = blocks[i].body.clone();
        self.current_state = (name, body);
        self.selected = String::new();
        self.current_name = String::new();
    }

    /// Selects the sprite that `line` quotes and asks for a new image; a line
    /// that quotes none changes nothing. Tells whether a sprite was selected.
    pub fn select_sprite(&mut self, line: &str) -> (r: bool)
        requires
            old(self).wf(),
        ensures
            final(self).wf(),
            r == sprite_name(line@) is Some,
            r ==> final(self).selected@ == sprite_name(line@)->0 && final(self).current_name@
                == Seq::<char>::empty() && final(self).reset_image,
            !r ==> *final(self) == *old(self),
            *final(self) == (BoxesWindow {
                selected: final(self).selected,
                current_name: final(self).current_name,
                reset_image: final(self).reset_image,
                ..*old(self)
            }),
    {
        match extract_selected_sprite_name(line) {
            Some(name) => {
                self.selected = name;
                self.current_name = String::new();
                self.reset_image = true;
                true
            },
            None => false,
        }
    }
}

} // verus!
