//! Best-effort hardware mixer setup and restore for the direct-device
//! output mode.
//!
//! The guard fixes the exact command sequences: on acquisition the digital
//! output is switched to non-audio passthrough at the fixed rate and the
//! master, PCM and passthrough controls are unmuted at full volume; on
//! release the digital output is restored to standard audio mode.  The
//! embedding application executes each command independently and
//! best-effort — a failing command is logged and never aborts the run.

use vstd::prelude::*;

use vstd::slice::slice_index_get;
use vstd::string::StringExecFns;

verus! {

/// Scoped description of the hardware mixer state changes for direct
/// device output.  Acquisition applies `startup_commands`; release applies
/// `shutdown_commands`, even on abnormal unwind.
#[derive(Debug, Clone)]
pub struct DirectAlsaHardwareGuard {
    /// Card index the commands address.
    pub iec_card: String,
    /// Control index of the digital passthrough control.
    pub iec_index: String,
}

/// One hardware-control command: a program, its arguments, and a short
/// description used when reporting a failure.
#[derive(Debug, Clone, PartialEq, Eq)]
pub struct CommandSpec {
    pub program: String,
    pub args: Vec<String>,
    pub context: String,
}

/// The views of a sequence of borrowed strings.
pub open spec fn spec_strs(tail: Seq<&str>) -> Seq<Seq<char>> {
    tail.map_values(|t: &str| t@)
}

/// Arguments addressing the digital-output control: card, control index,
/// then the command tail.
pub open spec fn spec_iecset_args(card: Seq<char>, index: Seq<char>, tail: Seq<Seq<char>>) -> Seq<
    Seq<char>,
> {
    seq!["-c"@, card, "-n"@, index] + tail
}

/// Arguments unmuting a mixer control at full volume on `card`.
pub open spec fn spec_amixer_volume_args(card: Seq<char>, control: Seq<char>) -> Seq<Seq<char>> {
    seq!["-c"@, card, "set"@, control, "unmute"@, "100%"@]
}

/// Arguments unmuting the digital passthrough control `index` on `card`.
pub open spec fn spec_amixer_iec_args(card: Seq<char>, index: Seq<char>) -> Seq<Seq<char>> {
    seq!["-c"@, card, "set"@, "IEC958,"@ + index, "unmute"@]
}

impl DirectAlsaHardwareGuard {
    /// Configures the guard for one card and passthrough control.  The
    /// embedding application applies `startup_commands` on acquisition and
    /// `shutdown_commands` on release.
    pub fn setup(iec_card: String, iec_index: String) -> (g: DirectAlsaHardwareGuard)
        ensures
            g.iec_card@ == iec_card@,
            g.iec_index@ == iec_index@,
    {
        DirectAlsaHardwareGuard { iec_card, iec_index }
    }

    /// Arguments for a digital-output command with the given tail.
    pub fn iecset_args(&self, tail: &[&str]) -> (args: Vec<String>)
        ensures
            args.deep_view() == spec_iecset_args(self.iec_card@, self.iec_index@, spec_strs(tail@)),
    {
        let mut args: Vec<String> = Vec::new();
        args.push(String::from_str("-c"));
        args.push(self.iec_card.clone());
        args.push(String::from_str("-n"));
        args.push(self.iec_index.clone());
        let mut i: usize = 0;
        while i < tail.len()
            invariant
                i <= tail@.len(),
                args@.len() == 4 + i,
                args@[0]@ == "-c"@,
                args@[1]@ == self.iec_card@,
                args@[2]@ == "-n"@,
                args@[3]@ == self.iec_index@,
                forall|k: int| 0 <= k < i ==> #[trigger] args@[4 + k]@ == tail@[k]@,
            decreases tail@.len() - i,
        {
            let t: &str = *slice_index_get(tail, i);
            args.push(String::from_str(t));
            i = i + 1;
        }
        proof {
            let lhs = args.deep_view();
            let rhs = spec_iecset_args(self.iec_card@, self.iec_index@, spec_strs(tail@));
            assert forall|j: int| 0 <= j < lhs.len() implies lhs[j] == rhs[j] by {
                if j >= 4 {
                    assert(args@[4 + (j - 4)]@ == tail@[j - 4]@);
                }
            }
            assert(lhs =~= rhs);
        }
        args
    }

    /// Arguments unmuting the master volume at 100%.
    pub fn amixer_master_args(&self) -> (args: Vec<String>)
        ensures
            args.deep_view() == spec_amixer_volume_args(self.iec_card@, "Master"@),
    {
        self.amixer_volume_args("Master")
    }

    /// Arguments unmuting the PCM volume at 100%.
    pub fn amixer_pcm_args(&self) -> (args: Vec<String>)
        ensures
            args.deep_view() == spec_amixer_volume_args(self.iec_card@, "PCM"@),
    {
        self.amixer_volume_args("PCM")
    }

    fn amixer_volume_args(&self, control: &str) -> (args: Vec<String>)
        ensures
            args.deep_view() == spec_amixer_volume_args(self.iec_card@, control@),
    {
        let mut args: Vec<String> = Vec::new();
        args.push(String::from_str("-c"));
        args.push(self.iec_card.clone());
        args.push(String::from_str("set"));
        args.push(String::from_str(control));
        args.push(String::from_str("unmute"));
        args.push(String::from_str("100%"));
        proof {
            assert(args.deep_view() =~~= spec_amixer_volume_args(self.iec_card@, control@));
        }
        args
    }

    /// Arguments unmuting the digital passthrough control.
    pub fn amixer_iec_args(&self) -> (args: Vec<String>)
        ensures
            args.deep_view() == spec_amixer_iec_args(self.iec_card@, self.iec_index@),
    {
        let mut args: Vec<String> = Vec::new();
        args.push(String::from_str("-c"));
        args.push(self.iec_card.clone());
        args.push(String::from_str("set"));
        let mut control = String::from_str("IEC958,");
        control.append(self.iec_index.as_str());
        args.push(control);
        args.push(String::from_str("unmute"));
        proof {
            assert(args.deep_view() =~~= spec_amixer_iec_args(self.iec_card@, self.iec_index@));
        }
        args
    }

    /// The acquisition sequence, in order: digital output to non-audio
    /// mode at 48 kHz, master volume to 100% unmuted, PCM volume to 100%
    /// unmuted, digital passthrough control unmuted.
    pub fn startup_commands(&self) -> (cmds: Vec<CommandSpec>)
        ensures
            cmds@.len() == 4,
            cmds@[0].program@ == "iecset"@,
            cmds@[0].args.deep_view() == spec_iecset_args(
                self.iec_card@,
                self.iec_index@,
                seq!["audio"@, "off"@, "rate"@, "48000"@],
            ),
            cmds@[1].program@ == "amixer"@,
            cmds@[1].args.deep_view() == spec_amixer_volume_args(self.iec_card@, "Master"@),
            cmds@[2].program@ == "amixer"@,
            cmds@[2].args.deep_view() == spec_amixer_volume_args(self.iec_card@, "PCM"@),
            cmds@[3].program@ == "amixer"@,
            cmds@[3].args.deep_view() == spec_amixer_iec_args(self.iec_card@, self.iec_index@),
    {
        let mut tail: Vec<&str> = Vec::new();
        tail.push("audio");
        tail.push("off");
        tail.push("rate");
        tail.push("48000");
        let iecset = self.iecset_args(tail.as_slice());
        proof {
            assert(spec_strs(tail@) =~= seq!["audio"@, "off"@, "rate"@, "48000"@]);
        }
        let mut cmds: Vec<CommandSpec> = Vec::new();
        cmds.push(CommandSpec {
            program: String::from_str("iecset"),
            args: iecset,
            context: String::from_str("Set IEC958 to non-audio mode"),
        });
        cmds.push(CommandSpec {
            program: String::from_str("amixer"),
            args: self.amixer_master_args(),
            context: String::from_str("Set ALSA Master to 100% and unmute"),
        });
        cmds.push(CommandSpec {
            program: String::from_str("amixer"),
            args: self.amixer_pcm_args(),
            context: String::from_str("Set ALSA PCM to 100% and unmute"),
        });
        cmds.push(CommandSpec {
            program: String::from_str("amixer"),
            args: self.amixer_iec_args(),
            context: String::from_str("Unmute IEC958 control"),
        });
        cmds
    }

    /// The release sequence: restore the digital output to standard audio
    /// mode.
    pub fn shutdown_commands(&self) -> (cmds: Vec<CommandSpec>)
        ensures
            cmds@.len() == 1,
            cmds@[0].program@ == "iecset"@,
            cmds@[0].args.deep_view() == spec_iecset_args(
                self.iec_card@,
                self.iec_index@,
                seq!["audio"@, "on"@],
            ),
    {
        let mut tail: Vec<&str> = Vec::new();
        tail.push("audio");
        tail.push("on");
        let iecset = self.iecset_args(tail.as_slice());
        proof {
            assert(spec_strs(tail@) =~= seq!["audio"@, "on"@]);
        }
        let mut cmds: Vec<CommandSpec> = Vec::new();
        cmds.push(CommandSpec {
            program: String::from_str("iecset"),
            args: iecset,
            context: String::from_str("Restore IEC958 to PCM audio mode"),
        });
        cmds
    }
}

} // verus!
