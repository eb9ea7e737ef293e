//! Search settings: what to look for and how to present it.
use vstd::prelude::*;
use vstd::string::*;

verus! {

/// Whether new or used vehicles are searched.
#[derive(Clone, Copy, Debug, PartialEq, Eq, Structural)]
pub enum Condition {
    New,
    Used,
}

/// How the results of a search are presented.
#[derive(Clone, Copy, Debug, PartialEq, Eq, Structural)]
pub enum OutputMode {
    Ui,
    Text,
    Json,
}

/// `c` with ASCII upper-case letters mapped to lower case.
pub open spec fn ascii_lower_char(c: char) -> char {
    if 'A' <= c && c <= 'Z' {
        ((c as u32) + 32) as char
    } else {
        c
    }
}

/// `s` with every ASCII upper-case letter mapped to lower case.
pub open spec fn ascii_lower(s: Seq<char>) -> Seq<char> {
    s.map_values(|c: char| ascii_lower_char(c))
}

/// The output mode that a name stands for, ignoring ASCII case.
pub open spec fn output_mode_named(s: Seq<char>) -> Option<OutputMode> {
    let l = ascii_lower(s);
    if l == "ui"@ {
        Some(OutputMode::Ui)
    } else if l == "text"@ {
        Some(OutputMode::Text)
    } else if l == "json"@ {
        Some(OutputMode::Json)
    } else {
        None
    }
}

/// Relies on `str::to_ascii_lowercase`: ASCII letters 'A' to 'Z' become
/// 'a' to 'z', every other character is kept.
#[verifier::external_body]
fn to_ascii_lowercase(s: &str) -> (r: String)
    ensures
        r@ == ascii_lower(s@),
{
    s.to_ascii_lowercase()
}

/// Reads an output mode from its name, in any ASCII case.
pub fn parse_output_mode(s: &str) -> (r: Result<OutputMode, String>)
    ensures
        match output_mode_named(s@) {
            Some(m) => r == Ok::<OutputMode, String>(m),
            None => r.is_err() && r->Err_0@ == "Invalid output mode: "@ + s@,
        },
{
    let lower = to_ascii_lowercase(s);
    let ui = String::from_str("ui");
    let text = String::from_str("text");
    let json = String::from_str("json");
    proof {
        reveal_strlit("ui");
        reveal_strlit("text");
        reveal_strlit("json");
    }
    if lower == ui {
        Ok(OutputMode::Ui)
    } else if lower == text {
        Ok(OutputMode::Text)
    } else if lower == json {
        Ok(OutputMode::Json)
    } else {
        Err(String::from_str("Invalid output mode: ").concat(s))
    }
}

impl std::str::FromStr for OutputMode {
    type Err = String;

    fn from_str(s: &str) -> Result<Self, Self::Err> {
        parse_output_mode(s)
    }
}

/// The settings a search runs with.
#[derive(Clone, Debug)]
pub struct Configuration {
    pub condition: Condition,
    pub limit: Option<u32>,
    pub output: OutputMode,
    pub models: Vec<String>,
    pub equipment_names: Option<Vec<String>>,
}

/// Command-line arguments, as read from the command line.
#[derive(Clone, Debug)]
pub struct Args {
    /// Models to search for.
    pub model: Vec<String>,
    /// Search for used cars.
    pub used: bool,
    /// Maximum number of results to fetch.
    pub limit: Option<u32>,
    /// Equipment or pack names that every result must have.
    pub equipment_names: Option<Vec<String>>,
    /// Output mode.
    pub output: OutputMode,
    /// Shortcut for the text output mode.
    pub text: bool,
    /// Shortcut for the JSON output mode.
    pub json: bool,
}

/// The output mode that arguments select: the JSON shortcut first, then
/// the text shortcut, then the explicit mode.
pub open spec fn selected_output(args: Args) -> OutputMode {
    if args.json {
        OutputMode::Json
    } else if args.text {
        OutputMode::Text
    } else {
        args.output
    }
}

impl Configuration {
    pub fn models(&self) -> (r: &[String])
        ensures
            r@ == self.models@,
    {
        self.models.as_slice()
    }

    pub fn equipment_names(&self) -> (r: Option<&[String]>)
        ensures
            r.is_some() == self.equipment_names.is_some(),
            r.is_some() ==> r->Some_0@ == self.equipment_names->Some_0@,
    {
        match &self.equipment_names {
            Some(names) => Some(names.as_slice()),
            None => None,
        }
    }

    pub fn output(&self) -> (r: OutputMode)
        ensures
            r == self.output,
    {
        self.output
    }

    /// Builds the settings from command-line arguments.
    pub fn new(args: Args) -> (r: Self)
        ensures
            r.condition == (if args.used { Condition::Used } else { Condition::New }),
            r.models == args.model,
            r.limit == args.limit,
            r.equipment_names == args.equipment_names,
            r.output == selected_output(args),
    {
        let output = if args.json {
            OutputMode::Json
        } else if args.text {
            OutputMode::Text
        } else {
            args.output
        };
        Configuration {
            condition: if args.used { Condition::Used } else { Condition::New },
            models: args.model,
            limit: args.limit,
            equipment_names: args.equipment_names,
            output,
        }
    }
}

} // verus!
