//! Project configuration records and the manifest text they render to.
//!
//! The records mirror the shapes stored in a project's configuration file
//! and `pyproject.toml`.  Rendering a manifest is pure text construction
//! and its contract states the output exactly, block by optional block;
//! reading and writing the files, and parsing TOML back into the record,
//! is the driver's job.

use vstd::prelude::*;

verus! {

/// A project's own configuration record.
#[derive(Clone, Debug)]
pub struct ProjectConfig {
    pub name: String,
    pub path: String,
    pub python_version: Option<String>,
    pub dependencies: Vec<String>,
    pub created_at: String,
    pub last_opened: String,
}

/// The manifest record: project metadata, dependency lists, and the
/// optional build system table.
#[derive(Clone, Debug)]
pub struct PyProjectToml {
    pub project: ProjectMetadata,
    pub dependencies: Vec<String>,
    pub dev_dependencies: Vec<String>,
    pub build_system: Option<BuildSystem>,
}

/// The `[project]` table of a manifest.
#[derive(Clone, Debug)]
pub struct ProjectMetadata {
    pub name: String,
    pub version: String,
    pub description: Option<String>,
    pub authors: Vec<String>,
    pub requires_python: Option<String>,
    pub license: Option<String>,
    pub readme: Option<String>,
}

/// The `[build-system]` table of a manifest.
#[derive(Clone, Debug)]
pub struct BuildSystem {
    pub requires: Vec<String>,
    pub build_backend: String,
}

/// One quoted, comma-terminated line per item, as manifest lists are laid
/// out.
pub open spec fn quoted_lines(items: Seq<String>) -> Seq<char>
    decreases items.len(),
{
    if items.len() == 0 {
        Seq::empty()
    } else {
        quoted_lines(items.drop_last()) + "    \""@ + items.last()@ + "\",\n"@
    }
}

/// A `key = "value"` line for a present optional field, nothing for an
/// absent one.
pub open spec fn opt_line(prefix: Seq<char>, v: Option<String>, suffix: Seq<char>) -> Seq<char> {
    match v {
        Some(s) => prefix + s@ + suffix,
        None => Seq::empty(),
    }
}

/// A bracketed list block for a nonempty item list, nothing for an empty
/// one.
pub open spec fn list_block(header: Seq<char>, items: Seq<String>) -> Seq<char> {
    if items.len() == 0 {
        Seq::empty()
    } else {
        header + quoted_lines(items) + "]\n"@
    }
}

/// The optional `[build-system]` table's text.
pub open spec fn build_system_block(v: Option<BuildSystem>) -> Seq<char> {
    match v {
        Some(bs) => "\n[build-system]\n"@ + list_block("requires = [\n"@, bs.requires@)
            + "build-backend = \""@ + bs.build_backend@ + "\"\n"@,
        None => Seq::empty(),
    }
}

/// The text a manifest record renders to, block by block: the `[project]`
/// table with its optional lines and lists, then the optional
/// `[build-system]` table, then the `[tool.uv]` table when there are
/// development dependencies.
pub open spec fn rendered_pyproject(c: PyProjectToml) -> Seq<char> {
    "[project]\nname = \""@ + c.project.name@ + "\"\nversion = \""@ + c.project.version@
        + "\"\n"@ + opt_line("description = \""@, c.project.description, "\"\n"@) + list_block(
        "authors = [\n"@,
        c.project.authors@,
    ) + opt_line("requires-python = \""@, c.project.requires_python, "\"\n"@) + opt_line(
        "license = \""@,
        c.project.license,
        "\"\n"@,
    ) + opt_line("readme = \""@, c.project.readme, "\"\n"@) + list_block(
        "dependencies = [\n"@,
        c.dependencies@,
    ) + build_system_block(c.build_system) + list_block("\n[tool.uv]\ndev-dependencies = [\n"@, c.dev_dependencies@)
}

/// Append one quoted, comma-terminated line per item.
fn append_quoted_lines(s: &mut String, items: &Vec<String>)
    ensures
        final(s)@ == old(s)@ + quoted_lines(items@),
{
    let ghost head = s@;
    let mut i: usize = 0;
    while i < items.len()
        invariant
            i <= items@.len(),
            s@ == head + quoted_lines(items@.take(i as int)),
        decreases items@.len() - i,
    {
        s.append("    \"");
        s.append(items[i].as_str());
        s.append("\",\n");
        i = i + 1;
        proof {
            let pre = items@.take(i as int);
            assert(pre.drop_last() =~= items@.take(i - 1));
            assert(pre.last() == items@[i - 1]);
            assert(s@ =~= head + quoted_lines(pre));
        }
    }
    proof {
        assert(items@.take(items@.len() as int) =~= items@);
        assert(s@ =~= head + quoted_lines(items@));
    }
}

/// Append a `key = "value"` line when the field is present.
fn append_opt_line(s: &mut String, prefix: &str, v: &Option<String>, suffix: &str)
    ensures
        final(s)@ == old(s)@ + opt_line(prefix@, *v, suffix@),
{
    match v {
        Some(val) => {
            s.append(prefix);
            s.append(val.as_str());
            s.append(suffix);
            proof {
                assert(s@ =~= old(s)@ + opt_line(prefix@, *v, suffix@));
            }
        },
        None => {
            proof {
                assert(old(s)@ + opt_line(prefix@, *v, suffix@) =~= old(s)@);
            }
        },
    }
}

/// Append a bracketed list block when the list is nonempty.
fn append_list_block(s: &mut String, header: &str, items: &Vec<String>)
    ensures
        final(s)@ == old(s)@ + list_block(header@, items@),
{
    if items.len() > 0 {
        s.append(header);
        append_quoted_lines(s, items);
        s.append("]\n");
        proof {
            assert(s@ =~= old(s)@ + list_block(header@, items@));
        }
    } else {
        proof {
            assert(old(s)@ + list_block(header@, items@) =~= old(s)@);
        }
    }
}

/// Append the `[build-system]` table when one is configured.
fn append_build_system(s: &mut String, v: &Option<BuildSystem>)
    ensures
        final(s)@ == old(s)@ + build_system_block(*v),
{
    match v {
        Some(bs) => {
            s.append("\n[build-system]\n");
            append_list_block(s, "requires = [\n", &bs.requires);
            s.append("build-backend = \"");
            s.append(bs.build_backend.as_str());
            s.append("\"\n");
            proof {
                assert(s@ =~= old(s)@ + build_system_block(*v));
            }
        },
        None => {
            proof {
                assert(old(s)@ + build_system_block(*v) =~= old(s)@);
            }
        },
    }
}

/// Render a manifest record to its `pyproject.toml` text.
pub fn render_pyproject_toml(config: &PyProjectToml) -> (r: String)
    ensures
        r@ == rendered_pyproject(*config),
{
    let mut s = String::from_str("[project]\nname = \"");
    s.append(config.project.name.as_str());
    s.append("\"\nversion = \"");
    s.append(config.project.version.as_str());
    s.append("\"\n");
    append_opt_line(&mut s, "description = \"", &config.project.description, "\"\n");
    append_list_block(&mut s, "authors = [\n", &config.project.authors);
    append_opt_line(&mut s, "requires-python = \"", &config.project.requires_python, "\"\n");
    append_opt_line(&mut s, "license = \"", &config.project.license, "\"\n");
    append_opt_line(&mut s, "readme = \"", &config.project.readme, "\"\n");
    append_list_block(&mut s, "dependencies = [\n", &config.dependencies);
    append_build_system(&mut s, &config.build_system);
    append_list_block(&mut s, "\n[tool.uv]\ndev-dependencies = [\n", &config.dev_dependencies);
    s
}

/// The configuration record made up for a project directory that has none
/// on disk: no pinned interpreter, no dependencies, both timestamps set to
/// now.
pub fn default_project_config(name: String, path: String, now: String) -> (r: ProjectConfig)
    ensures
        r.name == name,
        r.path == path,
        r.python_version is None,
        r.dependencies@.len() == 0,
        r.created_at == now,
        r.last_opened == now,
{
    let created_at = now.clone();
    ProjectConfig {
        name,
        path,
        python_version: None,
        dependencies: Vec::new(),
        created_at,
        last_opened: now,
    }
}

/// The configuration record of a freshly created project.
pub fn new_project_config(
    name: String,
    path: String,
    python_version: Option<String>,
    now: String,
) -> (r: ProjectConfig)
    ensures
        r.name == name,
        r.path == path,
        r.python_version == python_version,
        r.dependencies@.len() == 0,
        r.created_at == now,
        r.last_opened == now,
{
    let created_at = now.clone();
    ProjectConfig {
        name,
        path,
        python_version,
        dependencies: Vec::new(),
        created_at,
        last_opened: now,
    }
}

/// The starter script written into a new project.
pub fn new_project_main_py() -> (r: &'static str)
    ensures
        r@ == "#!/usr/bin/env python3
\"\"\"
Main entry point for the project.
\"\"\"

def main():
    print(\"Hello from Pyra IDE!\")
    print(\"This is a new Python project.\")

if __name__ == \"__main__\":
    main()
"@,
{
    "#!/usr/bin/env python3
\"\"\"
Main entry point for the project.
\"\"\"

def main():
    print(\"Hello from Pyra IDE!\")
    print(\"This is a new Python project.\")

if __name__ == \"__main__\":
    main()
"
}

/// The read-me written into a new project, headed by its name.
pub fn new_project_readme(name: &str) -> (r: String)
    ensures
        r@ == "# "@ + name@ + "

A Python project created with Pyra IDE.

## Getting Started

1. Activate the virtual environment:
   ```bash
   # On Windows
   .venv\\Scripts\\activate
   
   # On macOS/Linux
   source .venv/bin/activate
   ```

2. Install dependencies:
   ```bash
   uv pip install -r requirements.txt
   ```

3. Run the project:
   ```bash
   python src/main.py
   ```

## Dependencies

See `requirements.txt` for project dependencies.
"@,
{
    let mut s = String::from_str("# ");
    s.append(name);
    s.append("

A Python project created with Pyra IDE.

## Getting Started

1. Activate the virtual environment:
   ```bash
   # On Windows
   .venv\\Scripts\\activate
   
   # On macOS/Linux
   source .venv/bin/activate
   ```

2. Install dependencies:
   ```bash
   uv pip install -r requirements.txt
   ```

3. Run the project:
   ```bash
   python src/main.py
   ```

## Dependencies

See `requirements.txt` for project dependencies.
");
    s
}

/// The manifest written for a new project when the package manager is not
/// available to generate one: the fixed fallback with the name and the
/// requested interpreter constraint filled in.
pub fn fallback_pyproject(name: &str, python_version: &Option<String>) -> (r: String)
    ensures
        r@ == "[project]
name = \""@ + name@ + "\"
version = \"0.1.0\"
description = \"A Python project created with Pyra IDE\"
authors = [\"Your Name <your.email@example.com>\"]
requires-python = \""@ + (match python_version {
            Some(v) => v@,
            None => ">=3.8"@,
        }) + "\"

[build-system]
requires = [\"setuptools\", \"wheel\"]
build-backend = \"setuptools.build_meta\"
"@,
{
    let mut s = String::from_str("[project]
name = \"");
    s.append(name);
    s.append("\"
version = \"0.1.0\"
description = \"A Python project created with Pyra IDE\"
authors = [\"Your Name <your.email@example.com>\"]
requires-python = \"");
    match python_version {
        Some(v) => s.append(v.as_str()),
        None => s.append(">=3.8"),
    }
    s.append("\"

[build-system]
requires = [\"setuptools\", \"wheel\"]
build-backend = \"setuptools.build_meta\"
");
    s
}

} // verus!
