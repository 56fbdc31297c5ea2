//! Themes and configuration paths.
//!
//! Themes are named sets of CSS variables.  The two built-in themes are
//! fixed values; which theme file serves a requested name, and where the
//! configuration directory of a folder lies, are decisions over plain
//! values.  Reading and writing the files themselves is the caller's
//! business.

use vstd::prelude::*;
use vstd::string::StringExecFns;

use crate::text::{append_str, chars_to_string, check_at, starts_with_at, subvec, to_chars};

verus! {

/// Theme configuration with all CSS variables, as name/value pairs with
/// unique names.
#[derive(Debug, Clone)]
pub struct ThemeConfig {
    pub name: String,
    pub author: Option<String>,
    pub version: Option<String>,
    pub variables: Vec<(String, String)>,
}

/// The variables of the built-in dark theme.
pub open spec fn dark_theme_variables() -> Seq<(Seq<char>, Seq<char>)> {
    seq![
        ("bg-primary"@, "#1e1e1e"@),
        ("bg-secondary"@, "#252526"@),
        ("bg-tertiary"@, "#2d2d30"@),
        ("text-primary"@, "#d4d4d4"@),
        ("text-secondary"@, "#858585"@),
        ("border-color"@, "#3e3e42"@),
        ("accent-color"@, "#007acc"@),
        ("accent-hover"@, "#0098ff"@),
        ("heading-color"@, "#4ec9b0"@),
        ("h1-color"@, "#569cd6"@),
        ("h2-color"@, "#4ec9b0"@),
        ("h3-color"@, "#dcdcaa"@),
        ("h4-color"@, "#9cdcfe"@),
        ("h5-color"@, "#c586c0"@),
        ("h6-color"@, "#858585"@),
        ("code-bg"@, "#1e1e1e"@),
        ("code-color"@, "#ce9178"@),
        ("link-color"@, "#3794ff"@),
        ("blockquote-border"@, "#007acc"@),
        ("blockquote-bg"@, "#1e1e1e"@),
        ("table-border"@, "#3e3e42"@),
        ("table-header-bg"@, "#2d2d30"@),
        ("list-marker"@, "#569cd6"@),
        ("hr-color"@, "#3e3e42"@),
    ]
}

/// The variables of the built-in light theme.
pub open spec fn light_theme_variables() -> Seq<(Seq<char>, Seq<char>)> {
    seq![
        ("bg-primary"@, "#ffffff"@),
        ("bg-secondary"@, "#f3f3f3"@),
        ("bg-tertiary"@, "#e8e8e8"@),
        ("text-primary"@, "#1e1e1e"@),
        ("text-secondary"@, "#6e6e6e"@),
        ("border-color"@, "#d4d4d4"@),
        ("accent-color"@, "#007acc"@),
        ("accent-hover"@, "#005a9e"@),
        ("heading-color"@, "#267f99"@),
        ("h1-color"@, "#0066cc"@),
        ("h2-color"@, "#267f99"@),
        ("h3-color"@, "#795e26"@),
        ("h4-color"@, "#0066cc"@),
        ("h5-color"@, "#af00db"@),
        ("h6-color"@, "#6e6e6e"@),
        ("code-bg"@, "#f5f5f5"@),
        ("code-color"@, "#a31515"@),
        ("link-color"@, "#0066cc"@),
        ("blockquote-border"@, "#007acc"@),
        ("blockquote-bg"@, "#f5f5f5"@),
        ("table-border"@, "#d4d4d4"@),
        ("table-header-bg"@, "#e8e8e8"@),
        ("list-marker"@, "#0066cc"@),
        ("hr-color"@, "#d4d4d4"@),
    ]
}

fn push_var(vars: &mut Vec<(String, String)>, name: &str, value: &str)
    ensures
        final(vars)@.len() == old(vars)@.len() + 1,
        final(vars).deep_view() == old(vars).deep_view().push((name@, value@)),
{
    vars.push((String::from_str(name), String::from_str(value)));
    proof {
        assert(final(vars).deep_view() =~= old(vars).deep_view().push((name@, value@)));
    }
}

/// Get the default dark theme.
#[verifier::rlimit(60)]
fn get_default_dark_theme() -> (r: ThemeConfig)
    ensures
        r.name@ == "Dark"@,
        r.author matches Some(a) && a@ == "Loom.md"@,
        r.version matches Some(v) && v@ == "1.0.0"@,
        r.variables.deep_view() == dark_theme_variables(),
{
    let mut vars: Vec<(String, String)> = Vec::new();
    push_var(&mut vars, "bg-primary", "#1e1e1e");
    push_var(&mut vars, "bg-secondary", "#252526");
    push_var(&mut vars, "bg-tertiary", "#2d2d30");
    push_var(&mut vars, "text-primary", "#d4d4d4");
    push_var(&mut vars, "text-secondary", "#858585");
    push_var(&mut vars, "border-color", "#3e3e42");
    push_var(&mut vars, "accent-color", "#007acc");
    push_var(&mut vars, "accent-hover", "#0098ff");
    push_var(&mut vars, "heading-color", "#4ec9b0");
    push_var(&mut vars, "h1-color", "#569cd6");
    push_var(&mut vars, "h2-color", "#4ec9b0");
    push_var(&mut vars, "h3-color", "#dcdcaa");
    push_var(&mut vars, "h4-color", "#9cdcfe");
    push_var(&mut vars, "h5-color", "#c586c0");
    push_var(&mut vars, "h6-color", "#858585");
    push_var(&mut vars, "code-bg", "#1e1e1e");
    push_var(&mut vars, "code-color", "#ce9178");
    push_var(&mut vars, "link-color", "#3794ff");
    push_var(&mut vars, "blockquote-border", "#007acc");
    push_var(&mut vars, "blockquote-bg", "#1e1e1e");
    push_var(&mut vars, "table-border", "#3e3e42");
    push_var(&mut vars, "table-header-bg", "#2d2d30");
    push_var(&mut vars, "list-marker", "#569cd6");
    push_var(&mut vars, "hr-color", "#3e3e42");
    proof {
        assert(vars.deep_view() =~= dark_theme_variables());
    }
    ThemeConfig {
        name: String::from_str("Dark"),
        author: Some(String::from_str("Loom.md")),
        version: Some(String::from_str("1.0.0")),
        variables: vars,
    }
}

/// Get the default light theme.
#[verifier::rlimit(60)]
fn get_default_light_theme() -> (r: ThemeConfig)
    ensures
        r.name@ == "Light"@,
        r.author matches Some(a) && a@ == "Loom.md"@,
        r.version matches Some(v) && v@ == "1.0.0"@,
        r.variables.deep_view() == light_theme_variables(),
{
    let mut vars: Vec<(String, String)> = Vec::new();
    push_var(&mut vars, "bg-primary", "#ffffff");
    push_var(&mut vars, "bg-secondary", "#f3f3f3");
    push_var(&mut vars, "bg-tertiary", "#e8e8e8");
    push_var(&mut vars, "text-primary", "#1e1e1e");
    push_var(&mut vars, "text-secondary", "#6e6e6e");
    push_var(&mut vars, "border-color", "#d4d4d4");
    push_var(&mut vars, "accent-color", "#007acc");
    push_var(&mut vars, "accent-hover", "#005a9e");
    push_var(&mut vars, "heading-color", "#267f99");
    push_var(&mut vars, "h1-color", "#0066cc");
    push_var(&mut vars, "h2-color", "#267f99");
    push_var(&mut vars, "h3-color", "#795e26");
    push_var(&mut vars, "h4-color", "#0066cc");
    push_var(&mut vars, "h5-color", "#af00db");
    push_var(&mut vars, "h6-color", "#6e6e6e");
    push_var(&mut vars, "code-bg", "#f5f5f5");
    push_var(&mut vars, "code-color", "#a31515");
    push_var(&mut vars, "link-color", "#0066cc");
    push_var(&mut vars, "blockquote-border", "#007acc");
    push_var(&mut vars, "blockquote-bg", "#f5f5f5");
    push_var(&mut vars, "table-border", "#d4d4d4");
    push_var(&mut vars, "table-header-bg", "#e8e8e8");
    push_var(&mut vars, "list-marker", "#0066cc");
    push_var(&mut vars, "hr-color", "#d4d4d4");
    proof {
        assert(vars.deep_view() =~= light_theme_variables());
    }
    ThemeConfig {
        name: String::from_str("Light"),
        author: Some(String::from_str("Loom.md")),
        version: Some(String::from_str("1.0.0")),
        variables: vars,
    }
}

/// Get the default dark theme (for when no folder is open).
pub fn get_default_dark_theme_config() -> (r: ThemeConfig)
    ensures
        r.name@ == "Dark"@,
        r.author matches Some(a) && a@ == "Loom.md"@,
        r.version matches Some(v) && v@ == "1.0.0"@,
        r.variables.deep_view() == dark_theme_variables(),
{
    get_default_dark_theme()
}

/// Get the default light theme (for when no folder is open).
pub fn get_default_light_theme_config() -> (r: ThemeConfig)
    ensures
        r.name@ == "Light"@,
        r.author matches Some(a) && a@ == "Loom.md"@,
        r.version matches Some(v) && v@ == "1.0.0"@,
        r.variables.deep_view() == light_theme_variables(),
{
    get_default_light_theme()
}

/// A folder path joined with a further component, the way paths join with
/// `/` separators: no separator is doubled and a relative component stands
/// alone under an empty base.
pub open spec fn path_join(base: Seq<char>, component: Seq<char>) -> Seq<char> {
    if base.len() == 0 {
        component
    } else if base[base.len() - 1] == '/' {
        base + component
    } else {
        base + "/"@ + component
    }
}

/// Appends `component` to the path characters in `out`.
fn append_path_component(out: &mut Vec<char>, component: &str)
    ensures
        final(out)@ == path_join(old(out)@, component@),
{
    if out.len() > 0 {
        let last = out[out.len() - 1];
        if last != '/' {
            append_str(out, "/");
        }
    }
    append_str(out, component);
    proof {
        assert(final(out)@ =~= path_join(old(out)@, component@));
    }
}

/// Get the path of the `.loom` directory inside the given folder, where
/// themes and configuration live.
///
/// The caller reports whether the folder exists and is a directory; the
/// decision and the resulting path are computed here.
pub fn get_loom_dir(folder_path: Option<String>, folder_exists: bool, folder_is_dir: bool) -> (r:
    Result<String, String>)
    ensures
        folder_path is None ==> (r matches Err(e) && e@ == "No folder path provided"@),
        folder_path matches Some(p) ==> {
            &&& !folder_exists ==> (r matches Err(e) && e@ == "Folder does not exist"@)
            &&& folder_exists && !folder_is_dir ==> (r matches Err(e) && e@
                == "Path is not a directory"@)
            &&& folder_exists && folder_is_dir ==> (r matches Ok(d) && d@ == path_join(
                p@,
                ".loom"@,
            ))
        },
{
    match folder_path {
        None => Err(String::from_str("No folder path provided")),
        Some(p) => {
            if !folder_exists {
                Err(String::from_str("Folder does not exist"))
            } else if !folder_is_dir {
                Err(String::from_str("Path is not a directory"))
            } else {
                let mut out = to_chars(p.as_str());
                append_path_component(&mut out, ".loom");
                Ok(chars_to_string(&out))
            }
        },
    }
}

/// The file that holds a theme of the given name: under `themes/built-in`
/// or `themes/custom` of the `.loom` directory, as `<name>.json`.
pub fn theme_file_path(loom_dir: &str, builtin: bool, theme_name: &str) -> (r: String)
    ensures
        r@ == path_join(loom_dir@, "themes"@) + "/"@ + (if builtin {
            "built-in"@
        } else {
            "custom"@
        }) + "/"@ + theme_name@ + ".json"@,
{
    let mut out = to_chars(loom_dir);
    append_path_component(&mut out, "themes");
    let ghost themes = out@;
    append_str(&mut out, "/");
    if builtin {
        append_str(&mut out, "built-in");
    } else {
        append_str(&mut out, "custom");
    }
    append_str(&mut out, "/");
    append_str(&mut out, theme_name);
    append_str(&mut out, ".json");
    proof {
        assert(out@ =~= path_join(loom_dir@, "themes"@) + "/"@ + (if builtin {
            "built-in"@
        } else {
            "custom"@
        }) + "/"@ + theme_name@ + ".json"@);
    }
    chars_to_string(&out)
}

/// Load a theme by name: the built-in theme file is preferred, a custom
/// one serves next, and a missing theme is reported by name.
///
/// The caller reads the two candidate theme files and hands their contents
/// over; the raw text of the chosen one comes back.
pub fn load_theme(theme_name: &str, builtin_theme: Option<String>, custom_theme: Option<String>)
    -> (r: Result<String, String>)
    ensures
        builtin_theme matches Some(c) ==> (r matches Ok(rc) && rc@ == c@),
        builtin_theme is None ==> (custom_theme matches Some(c) ==> (r matches Ok(rc) && rc@
            == c@)),
        (builtin_theme is None && custom_theme is None) ==> (r matches Err(e) && e@ == "Theme '"@
            + theme_name@ + "' not found"@),
{
    match builtin_theme {
        Some(c) => Ok(c),
        None => match custom_theme {
            Some(c) => Ok(c),
            None => {
                let mut msg: Vec<char> = Vec::new();
                append_str(&mut msg, "Theme '");
                append_str(&mut msg, theme_name);
                append_str(&mut msg, "' not found");
                proof {
                    assert(msg@ =~= "Theme '"@ + theme_name@ + "' not found"@);
                }
                Err(chars_to_string(&msg))
            },
        },
    }
}


/// The position of the last occurrence of `c` in `t` at or before `i`.
pub open spec fn rfind_char_from(t: Seq<char>, c: char, i: int) -> Option<int>
    decreases i + 1,
{
    if i < 0 || i >= t.len() {
        None
    } else if t[i] == c {
        Some(i)
    } else {
        rfind_char_from(t, c, i - 1)
    }
}

/// The theme name a theme file of this name holds: the part before the
/// `.json` extension.  A name whose extension is not `json` — including a
/// bare `.json`, which hides the file rather than naming a theme — holds
/// none.
pub open spec fn json_theme_stem(name: Seq<char>) -> Option<Seq<char>> {
    match rfind_char_from(name, '.', name.len() - 1) {
        Some(p) => if p >= 1 && p + 5 == name.len() && starts_with_at(name, "json"@, p + 1) {
            Some(name.take(p))
        } else {
            None
        },
        None => None,
    }
}

/// Executable parse of [`json_theme_stem`].
pub fn theme_file_stem(file_name: &str) -> (r: Option<String>)
    ensures
        match r {
            Some(stem) => json_theme_stem(file_name@) == Some(stem@),
            None => json_theme_stem(file_name@) is None,
        },
{
    let cs = to_chars(file_name);
    let n = cs.len();
    let mut i: usize = n;
    let mut found: Option<usize> = None;
    while i > 0 && found.is_none()
        invariant
            i <= n,
            n == cs@.len(),
            match found {
                None => rfind_char_from(cs@, '.', n as int - 1) == rfind_char_from(
                    cs@,
                    '.',
                    i as int - 1,
                ),
                Some(p) => p < n && rfind_char_from(cs@, '.', n as int - 1) == Some(p as int),
            },
        decreases i, (if found is None { 1int } else { 0int }),
    {
        if cs[i - 1] == '.' {
            found = Some(i - 1);
        } else {
            i -= 1;
        }
    }
    match found {
        None => {
            proof {
                assert(rfind_char_from(cs@, '.', -1) is None);
            }
            None
        },
        Some(p) => {
            proof {
                reveal_strlit("json");
            }
            let ext = to_chars("json");
            if p >= 1 && n >= 5 && p == n - 5 && check_at(&cs, &ext, p + 1) {
                let stem = subvec(&cs, 0, p);
                proof {
                    assert(cs@.take(p as int) =~= cs@.subrange(0, p as int));
                }
                Some(chars_to_string(&stem))
            } else {
                None
            }
        },
    }
}

} // verus!
