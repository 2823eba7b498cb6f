//! Descriptions of the functions that a request offers the model.
use vstd::prelude::*;

verus! {

/// One parameter of an offered function.
#[derive(Debug)]
pub struct FunctionProperty {
    /// The JSON type of the parameter.
    pub json_type: String,
    pub description: Option<String>,
    /// The only values allowed, when not empty.
    pub allowed_values: Vec<String>,
}

#[derive(Debug)]
pub struct FunctionParameters {
    /// The JSON type of the parameter set, `object`.
    pub json_type: String,
    /// Each parameter under its (unique) name.
    pub properties: Vec<(String, FunctionProperty)>,
    pub required: Vec<String>,
}

#[derive(Debug)]
pub struct OpenaiFunction {
    pub name: String,
    pub description: String,
    pub parameters: FunctionParameters,
}

pub open spec fn strings_view(v: Seq<String>) -> Seq<Seq<char>> {
    v.map_values(|s: String| s@)
}

/// `f` is the function `name`, described by `description`, taking one
/// required string parameter `command` with the given description and
/// allowed values.
pub open spec fn is_command_function(
    f: OpenaiFunction,
    name: Seq<char>,
    description: Seq<char>,
    command_description: Seq<char>,
    allowed: Seq<Seq<char>>,
) -> bool {
    &&& f.name@ == name
    &&& f.description@ == description
    &&& f.parameters.json_type@ == "object"@
    &&& f.parameters.properties@.len() == 1
    &&& f.parameters.properties@[0].0@ == "command"@
    &&& f.parameters.properties@[0].1.json_type@ == "string"@
    &&& f.parameters.properties@[0].1.description matches Some(d) && d@ == command_description
    &&& strings_view(f.parameters.properties@[0].1.allowed_values@) == allowed
    &&& strings_view(f.parameters.required@) == seq!["command"@]
}

fn command_function(name: &str, description: &str, command_description: &str, allowed: Vec<String>) -> (r: OpenaiFunction)
    ensures
        is_command_function(r, name@, description@, command_description@, strings_view(allowed@)),
{
    let property = FunctionProperty {
        json_type: String::from_str("string"),
        description: Some(String::from_str(command_description)),
        allowed_values: allowed,
    };
    let mut properties: Vec<(String, FunctionProperty)> = Vec::new();
    properties.push((String::from_str("command"), property));
    let mut required: Vec<String> = Vec::new();
    required.push(String::from_str("command"));
    proof {
        assert(strings_view(required@) =~= seq!["command"@]);
    }
    OpenaiFunction {
        name: String::from_str(name),
        description: String::from_str(description),
        parameters: FunctionParameters { json_type: String::from_str("object"), properties, required },
    }
}

/// The functions offered when the model may answer with a command: a
/// free-form `powershell` command, and a `theme` command limited to the
/// dark and light theme files.
pub fn powershell_functions() -> (r: Vec<OpenaiFunction>)
    ensures
        r@.len() == 2,
        is_command_function(
            r@[0],
            "powershell"@,
            "Call a powershell command"@,
            "the powershell command"@,
            Seq::empty(),
        ),
        is_command_function(
            r@[1],
            "theme"@,
            "Call a powershell command to change the windows theme"@,
            "themeA for dark mode and C for light mode"@,
            seq![
                "& \"C:\\Windows\\Resources\\Themes\\themeA.theme\""@,
                "& \"C:\\Windows\\Resources\\Themes\\themeC.theme\""@,
            ],
        ),
{
    let mut r: Vec<OpenaiFunction> = Vec::new();
    let free = command_function(
        "powershell",
        "Call a powershell command",
        "the powershell command",
        Vec::new(),
    );
    proof {
        assert(strings_view(Seq::<String>::empty()) =~= Seq::<Seq<char>>::empty());
    }
    r.push(free);
    let mut themes: Vec<String> = Vec::new();
    themes.push(String::from_str("& \"C:\\Windows\\Resources\\Themes\\themeA.theme\""));
    themes.push(String::from_str("& \"C:\\Windows\\Resources\\Themes\\themeC.theme\""));
    proof {
        assert(strings_view(themes@) =~= seq![
            "& \"C:\\Windows\\Resources\\Themes\\themeA.theme\""@,
            "& \"C:\\Windows\\Resources\\Themes\\themeC.theme\""@,
        ]);
    }
    let theme = command_function(
        "theme",
        "Call a powershell command to change the windows theme",
        "themeA for dark mode and C for light mode",
        themes,
    );
    r.push(theme);
    r
}

} // verus!
