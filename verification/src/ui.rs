//! User interaction around the registry.
//!
//! `UserInterface` is the prompt protocol: the binary implements it over a
//! real terminal, tests implement it in memory. `ContainerUI` drives the
//! registry through it, and everything a prompt answer decides — parsing a
//! port, bounding a selection — is checked here.

use vstd::prelude::*;

use crate::error::FlockerError;
use crate::state::{ContainerInfo, ContainerView, State};
use crate::state::{conflict_idx, conflict_msg, idx_of_id, not_found_msg, spec_add};
use crate::strutil::{chars_of, is_digit, lemma_val_monotone, u64_to_string, val_of_digits};

verus! {

/// Common UI functionality shared across components. An implementation
/// answers prompts; a selection must pick one of the offered items.
pub trait UserInterface {
    /// Get a string input from the user
    fn get_string_input(&self, prompt: &str) -> Result<String, FlockerError>;

    /// Get a string input from the user with a default value
    fn get_string_input_with_default(&self, prompt: &str, default: &str) -> Result<
        String,
        FlockerError,
    >;

    /// Get a boolean input from the user
    fn get_bool_input(&self, prompt: &str, default: bool) -> Result<bool, FlockerError>;

    /// Get a selection from a list of options
    fn get_selection(&self, prompt: &str, items: &Vec<String>) -> (r: Result<usize, FlockerError>)
        ensures
            r matches Ok(i) ==> i < items@.len(),
    ;

    /// Display a success message
    fn display_success(&self, message: &str);

    /// Display a warning message
    fn display_warning(&self, message: &str);
}

/// A port string the user typed is acceptable when it is all digits and
/// reads as a number no greater than the largest port.
pub open spec fn valid_port_digits(s: Seq<char>) -> bool {
    s.len() > 0 && (forall|i: int| 0 <= i < s.len() ==> is_digit(s[i])) && val_of_digits(s)
        <= 65535
}

/// Parse a port number the way the prompts need it: digits only, within
/// range, and at least 1024; anything else is reported.
pub fn parse_port(s: &str) -> (r: Result<u16, FlockerError>)
    ensures
        match r {
            Ok(p) => valid_port_digits(s@) && p == val_of_digits(s@) && p >= 1024,
            Err(e) => match e {
                FlockerError::UserInput(m) => (!valid_port_digits(s@) && m@
                    == "Port must be a valid number"@) || (valid_port_digits(s@)
                    && val_of_digits(s@) < 1024 && m@ == "Port must be >= 1024"@),
                _ => false,
            },
        },
{
    let cs = chars_of(s);
    let n = cs.len();
    if n == 0 {
        return Err(FlockerError::UserInput("Port must be a valid number".to_owned()));
    }
    let mut i: usize = 0;
    let mut val: u32 = 0;
    while i < n
        invariant
            n == cs@.len(),
            cs@ == s@,
            i <= n,
            forall|k: int| 0 <= k < i ==> is_digit(s@[k]),
            val == val_of_digits(s@.take(i as int)),
            val <= 65535,
        decreases n - i,
    {
        let c = cs[i];
        let u = c as u32;
        if !(48 <= u && u <= 57) {
            return Err(FlockerError::UserInput("Port must be a valid number".to_owned()));
        }
        let d = crate::strutil::char_to_digit(c);
        proof {
            assert(s@.take(i + 1).drop_last() =~= s@.take(i as int));
            assert(s@.take(i + 1).last() == s@[i as int]);
        }
        let next = val * 10 + (d as u32);
        if next > 65535 {
            proof {
                lemma_val_monotone(s@, i + 1, s@.len() as int);
                assert(s@.take(s@.len() as int) =~= s@);
            }
            return Err(FlockerError::UserInput("Port must be a valid number".to_owned()));
        }
        val = next;
        i += 1;
    }
    proof {
        assert(s@.take(n as int) =~= s@);
    }
    if val < 1024 {
        return Err(FlockerError::UserInput("Port must be >= 1024".to_owned()));
    }
    Ok(val as u16)
}

/// Container management UI
pub struct ContainerUI<UI> {
    state: State,
    ui: UI,
}

impl<UI: UserInterface> ContainerUI<UI> {
    /// The registry this UI drives.
    pub closed spec fn spec_state(&self) -> Seq<ContainerView> {
        self.state@
    }

    /// The registry's invariant carries over.
    pub closed spec fn wf(&self) -> bool {
        self.state.wf()
    }

    /// Create a new ContainerUI instance with custom UI implementation
    pub fn with_ui(state: State, ui: UI) -> (r: Self)
        ensures
            r.spec_state() == state@,
            r.wf() == state.wf(),
    {
        Self { state, ui }
    }

    /// The registry held, for listing and persistence.
    pub fn state(&self) -> (r: &State)
        ensures
            r@ == self.spec_state(),
            r.wf() == self.wf(),
    {
        &self.state
    }

    /// Remove a container from state
    pub fn remove_container(&mut self, container_id: &str) -> (r: Result<(), FlockerError>)
        requires
            old(self).wf(),
        ensures
            final(self).wf(),
            match r {
                Ok(()) => idx_of_id(old(self).spec_state(), container_id@) != -1 && final(self).spec_state() == old(self).spec_state().remove(
                    idx_of_id(old(self).spec_state(), container_id@),
                ),
                Err(e) => idx_of_id(old(self).spec_state(), container_id@) == -1 && final(self).spec_state() == old(self).spec_state() && match e {
                    FlockerError::Config(m) => m@ == not_found_msg(container_id@),
                    _ => false,
                },
            },
    {
        self.state.remove_container(container_id)
    }

    /// Add a new container to state
    pub fn add_container(&mut self, info: ContainerInfo) -> (r: Result<(), FlockerError>)
        requires
            old(self).wf(),
        ensures
            final(self).wf(),
            match r {
                Ok(()) => conflict_idx(old(self).spec_state(), info@) == -1 && final(self).spec_state() == spec_add(old(self).spec_state(), info@),
                Err(e) => conflict_idx(old(self).spec_state(), info@) != -1 && final(self).spec_state() == old(self).spec_state() && match e {
                    FlockerError::Config(m) => m@ == conflict_msg(old(self).spec_state(), info@),
                    _ => false,
                },
            },
    {
        self.state.add_container(info)
    }

    /// Get container name from user
    pub fn get_container_name(&self) -> Result<String, FlockerError> {
        self.ui.get_string_input("Enter a name for this container")
    }

    /// Get port configuration from user: whatever the answer was, a port is
    /// returned only if it parses and is at least 1024.
    pub fn get_port_config(&self, default_port: u16) -> (r: Result<u16, FlockerError>)
        ensures
            r matches Ok(p) ==> p >= 1024,
    {
        let default = u64_to_string(default_port as u64);
        let answer = self.ui.get_string_input_with_default(
            "Enter host port to map to container port 8090",
            default.as_str(),
        );
        match answer {
            Err(e) => Err(e),
            Ok(port_str) => parse_port(port_str.as_str()),
        }
    }

    /// Get detach mode configuration from user
    pub fn get_detach_config(&self, default_detached: bool) -> Result<bool, FlockerError> {
        self.ui.get_bool_input("Run container in background (detached mode)?", default_detached)
    }

    /// Display container action menu: the choice indexes the running
    /// container's six actions, or the stopped container's two.
    pub fn display_action_menu(&self, running: bool) -> (r: Result<usize, FlockerError>)
        ensures
            r matches Ok(i) ==> i < (if running {
                6int
            } else {
                2int
            }),
    {
        let mut options: Vec<String> = Vec::new();
        if running {
            let labels = crate::actions::RunningContainerAction::variants();
            let mut k: usize = 0;
            while k < labels.len()
                invariant
                    options@.len() == k,
                    k <= labels@.len(),
                decreases labels@.len() - k,
            {
                options.push(labels[k].to_owned());
                k += 1;
            }
        } else {
            options.push("Start this container".to_owned());
            options.push("Remove this container".to_owned());
        }
        self.ui.get_selection("What would you like to do?", &options)
    }
}

} // verus!

