//! The declarative description of a workspace: a session name, an optional
//! command shared by every tab, and the tabs themselves.

use vstd::prelude::*;

verus! {

/// One tab of the workspace: its title, whether it should end up focused,
/// and the shell command lines typed into it, in order.
#[derive(Debug, PartialEq, Eq)]
pub struct TabConfig {
    pub name: String,
    pub focus: bool,
    pub commands: Vec<String>,
}

/// Mathematical model of a [`TabConfig`].
pub struct TabConfigView {
    pub name: Seq<char>,
    pub focus: bool,
    pub commands: Seq<Seq<char>>,
}

impl View for TabConfig {
    type V = TabConfigView;

    open spec fn view(&self) -> TabConfigView {
        TabConfigView {
            name: self.name@,
            focus: self.focus,
            commands: self.commands.deep_view(),
        }
    }
}

impl DeepView for TabConfig {
    type V = TabConfigView;

    open spec fn deep_view(&self) -> TabConfigView {
        self.view()
    }
}

/// A whole workspace. An empty `shell_command_before` means that no shared
/// command is configured. An empty `tabs` is legal: the multiplexer then
/// keeps the single tab it starts with.
#[derive(Debug, PartialEq, Eq)]
pub struct SessionConfig {
    pub session_name: String,
    pub shell_command_before: String,
    pub tabs: Vec<TabConfig>,
}

/// Mathematical model of a [`SessionConfig`].
pub struct SessionConfigView {
    pub session_name: Seq<char>,
    pub shell_command_before: Seq<char>,
    pub tabs: Seq<TabConfigView>,
}

impl View for SessionConfig {
    type V = SessionConfigView;

    open spec fn view(&self) -> SessionConfigView {
        SessionConfigView {
            session_name: self.session_name@,
            shell_command_before: self.shell_command_before@,
            tabs: self.tabs.deep_view(),
        }
    }
}

/// The 1-based index of the tab that holds the focus once the workspace is
/// set up: that of the last tab marked for focus, and 1 where none is.
pub open spec fn focus_index(tabs: Seq<TabConfigView>) -> nat
    decreases tabs.len(),
{
    if tabs.len() == 0 {
        1
    } else if tabs.last().focus {
        tabs.len()
    } else {
        focus_index(tabs.drop_last())
    }
}

impl SessionConfigView {
    /// The tabs, and the commands of each, can be counted in a `usize`. This
    /// holds of every configuration that a program holds in memory.
    pub open spec fn countable(self) -> bool {
        &&& self.tabs.len() <= usize::MAX
        &&& forall|tab: int|
            0 <= tab < self.tabs.len() ==> (#[trigger] self.tabs[tab]).commands.len() <= usize::MAX
    }

    /// Whether a command shared by all tabs is configured.
    pub open spec fn has_shell_command_before(self) -> bool {
        self.shell_command_before.len() > 0
    }

    /// How many tabs have to be created: the multiplexer supplies the first.
    pub open spec fn tabs_to_create(self) -> nat {
        if self.tabs.len() == 0 {
            0
        } else {
            (self.tabs.len() - 1) as nat
        }
    }

    /// The 1-based index of the tab that gets the focus in the end.
    pub open spec fn focus_index(self) -> nat {
        focus_index(self.tabs)
    }
}

impl SessionConfig {
    /// The model of a configuration in memory is countable.
    pub proof fn lemma_countable(&self)
        ensures
            self@.countable(),
    {
        assert(self@.tabs.len() == self.tabs.len());
        assert forall|tab: int| 0 <= tab < self@.tabs.len() implies (#[trigger] self@.tabs[tab]).commands.len()
            <= usize::MAX by {
            assert(self@.tabs[tab].commands.len() == self.tabs[tab].commands.len());
        }
    }

    /// Puts a configuration together from its three parts.
    pub fn new(session_name: String, shell_command_before: String, tabs: Vec<TabConfig>) -> (config:
        SessionConfig)
        ensures
            config.session_name == session_name,
            config.shell_command_before == shell_command_before,
            config.tabs == tabs,
            config@ == (SessionConfigView {
                session_name: session_name@,
                shell_command_before: shell_command_before@,
                tabs: tabs.deep_view(),
            }),
    {
        SessionConfig { session_name, shell_command_before, tabs }
    }

    /// Whether a command shared by all tabs is configured.
    pub fn has_shell_command_before(&self) -> (b: bool)
        ensures
            b == self@.has_shell_command_before(),
    {
        !self.shell_command_before.as_str().is_empty()
    }

    /// How many tabs have to be created on top of the one the multiplexer
    /// starts with.
    pub fn tabs_to_create(&self) -> (n: usize)
        ensures
            n == self@.tabs_to_create(),
    {
        if self.tabs.len() == 0 {
            0
        } else {
            self.tabs.len() - 1
        }
    }

    /// Scans the tabs in order and returns the 1-based index of the last one
    /// marked for focus, or 1 if none is.
    pub fn focus_index(&self) -> (index: usize)
        ensures
            index == self@.focus_index(),
            1 <= index,
            index <= self.tabs.len() || index == 1,
    {
        let mut index: usize = 1;
        let mut i: usize = 0;
        while i < self.tabs.len()
            invariant
                i <= self.tabs.len(),
                index == focus_index(self@.tabs.take(i as int)),
                1 <= index,
                index <= i || index == 1,
            decreases self.tabs.len() - i,
        {
            proof {
                let next = self@.tabs.take(i + 1);
                assert(next.drop_last() == self@.tabs.take(i as int));
                assert(next.last() == self@.tabs[i as int]);
                assert(self@.tabs[i as int].focus == self.tabs[i as int].focus);
            }
            if self.tabs[i].focus {
                index = i + 1;
            }
            i = i + 1;
        }
        proof {
            assert(self@.tabs.take(i as int) == self@.tabs);
        }
        index
    }
}

} // verus!
