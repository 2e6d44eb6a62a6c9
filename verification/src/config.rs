//! What the user configures: an image and a render mode for each output.

use vstd::prelude::*;

use crate::lookup::{first_index, is_first, lemma_first_index};

verus! {

/// How the image of an output follows what happens on it.
#[derive(Clone, Copy, Debug, PartialEq, Eq, Structural)]
pub enum RenderMode {
    /// The image does not move.
    Static,
    /// The image moves up and down with the active workspace.
    ScrollVertical,
    /// The image moves sideways with the active column.
    ScrollHorizontal,
    /// The image moves with the active workspace and the active column.
    ScrollBoth,
}

/// The configuration of one output.
#[derive(Debug, PartialEq, Eq)]
pub struct OutputConfig {
    pub name: String,
    pub image: String,
    pub mode: Option<RenderMode>,
}

/// The configuration of the daemon, as far as outputs go.
#[derive(Debug, PartialEq, Eq)]
pub struct DaemonConfig {
    pub outputs: Vec<OutputConfig>,
}

/// A command that the daemon sends to the agent.
#[derive(Debug)]
pub enum DaemonCommand {
    /// Use this configuration from now on.
    ReloadConfig(DaemonConfig),
    /// The session was locked.
    Lock,
    /// The daemon is about to stop.
    Stop,
}

/// The mathematical content of an [`OutputConfig`].
pub struct OutputConfigView {
    pub name: Seq<char>,
    pub image: Seq<char>,
    pub mode: Option<RenderMode>,
}

impl View for OutputConfig {
    type V = OutputConfigView;

    open spec fn view(&self) -> OutputConfigView {
        OutputConfigView { name: self.name@, image: self.image@, mode: self.mode }
    }
}

impl View for DaemonConfig {
    type V = Seq<OutputConfigView>;

    open spec fn view(&self) -> Seq<OutputConfigView> {
        self.outputs@.map_values(|c: OutputConfig| c@)
    }
}

impl OutputConfigView {
    /// The mode that the output is drawn in: an output without a mode is static.
    pub open spec fn effective_mode(self) -> RenderMode {
        match self.mode {
            Some(mode) => mode,
            None => RenderMode::Static,
        }
    }
}

/// The output names that the entries are for.
pub open spec fn config_names(entries: Seq<OutputConfigView>) -> Seq<Seq<char>> {
    entries.map_values(|c: OutputConfigView| c.name)
}

/// Position of the first entry for the output `name`.
pub open spec fn config_index(entries: Seq<OutputConfigView>, name: Seq<char>) -> Option<int> {
    first_index(config_names(entries), name)
}

impl Clone for OutputConfig {
    fn clone(&self) -> (res: OutputConfig)
        ensures
            res@ == self@,
    {
        OutputConfig { name: self.name.clone(), image: self.image.clone(), mode: self.mode }
    }
}

impl Clone for DaemonConfig {
    fn clone(&self) -> (res: DaemonConfig)
        ensures
            res@ == self@,
    {
        let mut outputs: Vec<OutputConfig> = Vec::new();
        let mut i: usize = 0;
        while i < self.outputs.len()
            invariant
                i <= self.outputs@.len(),
                outputs@.len() == i,
                forall|j: int| 0 <= j < i ==> (#[trigger] outputs@[j])@ == self@[j],
            decreases self.outputs@.len() - i,
        {
            outputs.push(self.outputs[i].clone());
            i = i + 1;
        }
        let res: DaemonConfig = DaemonConfig { outputs };
        assert(res@ =~= self@);
        res
    }
}

impl DaemonConfig {
    /// Finds the first entry for the output `name`.
    pub fn find_output(&self, name: &String) -> (res: Option<usize>)
        ensures
            match res {
                Some(i) => config_index(self@, name@) == Some(i as int) && i < self.outputs@.len(),
                None => config_index(self@, name@) is None,
            },
    {
        proof {
            lemma_first_index(config_names(self@), name@);
        }
        let mut i: usize = 0;
        while i < self.outputs.len()
            invariant
                i <= self.outputs@.len(),
                forall|j: int| 0 <= j < i ==> #[trigger] config_names(self@)[j] != name@,
                forall|k: int|
                    is_first(config_names(self@), name@, k) ==> config_index(self@, name@) == Some(
                        k,
                    ),
                config_index(self@, name@) matches Some(k) ==> is_first(
                    config_names(self@),
                    name@,
                    k,
                ),
            decreases self.outputs@.len() - i,
        {
            if self.outputs[i].name == *name {
                assert(config_names(self@)[i as int] == self.outputs@[i as int].name@);
                assert(is_first(config_names(self@), name@, i as int));
                return Some(i);
            }
            assert(config_names(self@)[i as int] == self.outputs@[i as int].name@);
            i = i + 1;
        }
        None
    }
}

} // verus!
