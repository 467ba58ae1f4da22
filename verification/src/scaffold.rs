//! Planning the creation of a new package: the directories to make and
//! the files to write, with their exact contents.  The caller performs
//! the writes, refusing to overwrite files that already exist.

use vstd::prelude::*;

use crate::codec::spec_write;
use crate::codec::write_manifest;
use crate::errors::SpmError;
use crate::manifest::Package;
use crate::shell::shell_shebang;

verus! {

/// The body of a generated library entrypoint script.
pub open spec fn library_entrypoint_body() -> Seq<char> {
    "\n\n# This is a library package\n# Define your functions below\n\n# Include function for dependency management\n. \"./src/std/include.sh\"\n\ngreet() {\n    echo \"Hello from the library!\"\n}\n"@
}

/// The body of a generated executable entrypoint script.
pub open spec fn executable_entrypoint_body() -> Seq<char> {
    "\n\n# Include standard library functions\n. \"./src/std/include.sh\"\n\nmain() {\n    echo \"Hello World!\"\n}\n\nmain \"$@\""@
}

/// The body of a generated setup script.
pub open spec fn setup_script_body() -> Seq<char> {
    "\n\necho \"Setting up the package...\"\n\n# Install dependencies if any\nif [ -d \"./dependencies\" ]; then\n    for dep in ./dependencies/*; do\n        if [ -f \"$dep/install.sh\" ]; then\n            echo \"Installing dependency: $(basename \"$dep\")\"\n            (cd \"$dep\" && ./install.sh)\n        fi\n    done\nfi"@
}

/// The body of a generated uninstall script.
pub open spec fn uninstall_script_body() -> Seq<char> {
    "\n\necho \"Uninstalling the package...\"\n\n# Run uninstall scripts for dependencies if any\nif [ -d \"./dependencies\" ]; then\n    for dep in ./dependencies/*; do\n        if [ -f \"$dep/uninstall.sh\" ]; then\n            echo \"Uninstalling dependency: $(basename \"$dep\")\"\n            (cd \"$dep\" && ./uninstall.sh)\n        fi\n    done\nfi"@
}

/// The body of the generated include helper sourced by every script.
pub open spec fn include_script_body() -> Seq<char> {
    "\n\n# Shell Package Manager include function\n# This function allows importing dependencies and other shell scripts\n\n# Global variable to track already included files to avoid duplicate inclusions\nif [ -z \"$SPM_INCLUDED_FILES\" ]; then\n    export SPM_INCLUDED_FILES=\"\"\nfi\n\n# Include a dependency or local file\n# Usage: include \"dependency_name\" [file_path]\n# Examples:\n#   include \"logger\"                # Include main entry point of logger dependency\n#   include \"logger\" \"src/utils.sh\" # Include specific file from logger dependency\n#   include \"./src/helpers.sh\"      # Include local file\ninclude() {\n    local dependency=\"\"\n    local file_path=\"\"\n    \n    # Check if this is a dependency include or a local file include\n    if [ $# -eq 1 ]; then\n        # Single argument could be a dependency name or a local file\n        if [ -d \"./dependencies/$1\" ]; then\n            # It's a dependency - use its main entry point\n            dependency=\"$1\"\n            local package_json=\"./dependencies/$dependency/package.json\"\n            if [ -f \"$package_json\" ]; then\n                # Extract the entrypoint from package.json\n                if command -v jq >/dev/null 2>&1; then\n                    file_path=\"./dependencies/$dependency/$(jq -r '.entrypoint' \"$package_json\")\"\n                else\n                    # Fallback if jq is not available\n                    file_path=\"./dependencies/$dependency/main.sh\"\n                    if [ ! -f \"$file_path\" ]; then\n                        file_path=\"./dependencies/$dependency/lib.sh\"\n                    fi\n                fi\n            else\n                file_path=\"./dependencies/$dependency/main.sh\"\n                if [ ! -f \"$file_path\" ]; then\n                    file_path=\"./dependencies/$dependency/lib.sh\"\n                fi\n            fi\n        else\n            # It's a local file\n            file_path=\"$1\"\n        fi\n    elif [ $# -eq 2 ]; then\n        # Two arguments: dependency and specific file\n        dependency=\"$1\"\n        file_path=\"./dependencies/$dependency/$2\"\n    else\n        echo \"Error: include requires 1 or 2 arguments\" >&2\n        return 1\n    fi\n    \n    # Convert to absolute path to ensure uniqueness check works\n    local abs_path=\"$(cd \"$(dirname \"$file_path\")\" 2>/dev/null && pwd)/$(basename \"$file_path\")\"\n    \n    # Check if the file has already been included\n    if echo \"$SPM_INCLUDED_FILES\" | grep -q \"$abs_path\"; then\n        return 0\n    fi\n    \n    # Check if the file exists\n    if [ ! -f \"$file_path\" ]; then\n        echo \"Error: Cannot include '$file_path' - file not found\" >&2\n        return 1\n    fi\n    \n    # Add to the list of included files\n    SPM_INCLUDED_FILES=\"$SPM_INCLUDED_FILES:$abs_path\"\n    \n    # Source the file\n    . \"$file_path\"\n    return $?\n}"@
}

/// The entrypoint contents generated for a package: its shebang followed
/// by the library or executable body.
pub open spec fn spec_entrypoint_content(p: &Package) -> Seq<char> {
    shell_shebang(p.interpreter) + if p.is_library {
        library_entrypoint_body()
    } else {
        executable_entrypoint_body()
    }
}

/// Generate the entrypoint script contents of a package.
pub fn create_entrypoint_script(package: &Package) -> (r: String)
    ensures
        r@ == spec_entrypoint_content(package),
{
    let mut r = package.interpreter.get_shebang().to_owned();
    if package.is_library {
        r.append(
            "\n\n# This is a library package\n# Define your functions below\n\n# Include function for dependency management\n. \"./src/std/include.sh\"\n\ngreet() {\n    echo \"Hello from the library!\"\n}\n",
        );
    } else {
        r.append(
            "\n\n# Include standard library functions\n. \"./src/std/include.sh\"\n\nmain() {\n    echo \"Hello World!\"\n}\n\nmain \"$@\"",
        );
    }
    r
}

/// Generate the setup script contents of a package.
pub fn create_setup_script(package: &Package) -> (r: String)
    ensures
        r@ == shell_shebang(package.interpreter) + setup_script_body(),
{
    let mut r = package.interpreter.get_shebang().to_owned();
    r.append(
        "\n\necho \"Setting up the package...\"\n\n# Install dependencies if any\nif [ -d \"./dependencies\" ]; then\n    for dep in ./dependencies/*; do\n        if [ -f \"$dep/install.sh\" ]; then\n            echo \"Installing dependency: $(basename \"$dep\")\"\n            (cd \"$dep\" && ./install.sh)\n        fi\n    done\nfi",
    );
    r
}

/// Generate the uninstall script contents of a package.
pub fn create_uninstall_script(package: &Package) -> (r: String)
    ensures
        r@ == shell_shebang(package.interpreter) + uninstall_script_body(),
{
    let mut r = package.interpreter.get_shebang().to_owned();
    r.append(
        "\n\necho \"Uninstalling the package...\"\n\n# Run uninstall scripts for dependencies if any\nif [ -d \"./dependencies\" ]; then\n    for dep in ./dependencies/*; do\n        if [ -f \"$dep/uninstall.sh\" ]; then\n            echo \"Uninstalling dependency: $(basename \"$dep\")\"\n            (cd \"$dep\" && ./uninstall.sh)\n        fi\n    done\nfi",
    );
    r
}

/// Generate the include helper contents of a package.
pub fn create_include_script(package: &Package) -> (r: String)
    ensures
        r@ == shell_shebang(package.interpreter) + include_script_body(),
{
    let mut r = package.interpreter.get_shebang().to_owned();
    r.append(
        "\n\n# Shell Package Manager include function\n# This function allows importing dependencies and other shell scripts\n\n# Global variable to track already included files to avoid duplicate inclusions\nif [ -z \"$SPM_INCLUDED_FILES\" ]; then\n    export SPM_INCLUDED_FILES=\"\"\nfi\n\n# Include a dependency or local file\n# Usage: include \"dependency_name\" [file_path]\n# Examples:\n#   include \"logger\"                # Include main entry point of logger dependency\n#   include \"logger\" \"src/utils.sh\" # Include specific file from logger dependency\n#   include \"./src/helpers.sh\"      # Include local file\ninclude() {\n    local dependency=\"\"\n    local file_path=\"\"\n    \n    # Check if this is a dependency include or a local file include\n    if [ $# -eq 1 ]; then\n        # Single argument could be a dependency name or a local file\n        if [ -d \"./dependencies/$1\" ]; then\n            # It's a dependency - use its main entry point\n            dependency=\"$1\"\n            local package_json=\"./dependencies/$dependency/package.json\"\n            if [ -f \"$package_json\" ]; then\n                # Extract the entrypoint from package.json\n                if command -v jq >/dev/null 2>&1; then\n                    file_path=\"./dependencies/$dependency/$(jq -r '.entrypoint' \"$package_json\")\"\n                else\n                    # Fallback if jq is not available\n                    file_path=\"./dependencies/$dependency/main.sh\"\n                    if [ ! -f \"$file_path\" ]; then\n                        file_path=\"./dependencies/$dependency/lib.sh\"\n                    fi\n                fi\n            else\n                file_path=\"./dependencies/$dependency/main.sh\"\n                if [ ! -f \"$file_path\" ]; then\n                    file_path=\"./dependencies/$dependency/lib.sh\"\n                fi\n            fi\n        else\n            # It's a local file\n            file_path=\"$1\"\n        fi\n    elif [ $# -eq 2 ]; then\n        # Two arguments: dependency and specific file\n        dependency=\"$1\"\n        file_path=\"./dependencies/$dependency/$2\"\n    else\n        echo \"Error: include requires 1 or 2 arguments\" >&2\n        return 1\n    fi\n    \n    # Convert to absolute path to ensure uniqueness check works\n    local abs_path=\"$(cd \"$(dirname \"$file_path\")\" 2>/dev/null && pwd)/$(basename \"$file_path\")\"\n    \n    # Check if the file has already been included\n    if echo \"$SPM_INCLUDED_FILES\" | grep -q \"$abs_path\"; then\n        return 0\n    fi\n    \n    # Check if the file exists\n    if [ ! -f \"$file_path\" ]; then\n        echo \"Error: Cannot include '$file_path' - file not found\" >&2\n        return 1\n    fi\n    \n    # Add to the list of included files\n    SPM_INCLUDED_FILES=\"$SPM_INCLUDED_FILES:$abs_path\"\n    \n    # Source the file\n    . \"$file_path\"\n    return $?\n}",
    );
    r
}

/// One file of a package scaffold.
#[derive(Debug)]
pub struct ScaffoldFile {
    /// Where the file is written.
    pub path: String,
    /// What the file holds.
    pub contents: String,
    /// Whether the file is marked executable.
    pub executable: bool,
}

/// The plan of a package scaffold: directories to create, then files to
/// write, each of which must not already exist.
#[derive(Debug)]
pub struct ScaffoldPlan {
    /// The directories, in creation order.
    pub dirs: Vec<String>,
    /// The files, in creation order.
    pub files: Vec<ScaffoldFile>,
}

/// Join a directory and a name with a slash.
fn join2(dir: &str, name: &str) -> (r: String)
    ensures
        r@ == dir@ + "/"@ + name@,
{
    let mut r = dir.to_owned();
    r.append("/");
    r.append(name);
    r
}

/// Plan the scaffold of a new package: a `src/` tree with the standard
/// include helper, the entrypoint, the manifest document, the setup and
/// uninstall scripts, and an empty `dependencies/` directory.  The
/// target must already be a directory.
pub fn create_package_structure(
    path_to_package: &str,
    package: &Package,
    path_is_dir: bool,
) -> (r: Result<ScaffoldPlan, SpmError>)
    ensures
        match r {
            Ok(plan) => path_is_dir && plan.dirs@.len() == 3 && plan.dirs@[0]@ == path_to_package@
                + "/src"@ && plan.dirs@[1]@ == path_to_package@ + "/src/std"@ && plan.dirs@[2]@
                == path_to_package@ + "/dependencies"@ && plan.files@.len() == 5
                && plan.files@[0].path@ == path_to_package@ + "/"@ + package.entrypoint@
                && plan.files@[0].contents@ == spec_entrypoint_content(package)
                && plan.files@[0].executable && plan.files@[1].path@ == path_to_package@
                + "/package.json"@ && plan.files@[1].contents@ == spec_write(package.model())
                && !plan.files@[1].executable && plan.files@[2].path@ == path_to_package@ + "/"@
                + package.install.setup_script@ && plan.files@[2].contents@ == shell_shebang(
                package.interpreter,
            ) + setup_script_body() && plan.files@[2].executable && plan.files@[3].path@
                == path_to_package@ + "/"@ + package.uninstall@ && plan.files@[3].contents@
                == shell_shebang(package.interpreter) + uninstall_script_body()
                && plan.files@[3].executable && plan.files@[4].path@ == path_to_package@
                + "/src/std/include.sh"@ && plan.files@[4].contents@ == shell_shebang(
                package.interpreter,
            ) + include_script_body() && plan.files@[4].executable,
            Err(e) => !path_is_dir && e == SpmError::NotADirectory,
        },
{
    if !path_is_dir {
        return Err(SpmError::NotADirectory);
    }
    let mut dirs: Vec<String> = Vec::new();
    dirs.push(join2(path_to_package, "src"));
    dirs.push(join2(path_to_package, "src/std"));
    dirs.push(join2(path_to_package, "dependencies"));
    proof {
        assert(path_to_package@ + "/"@ + "src"@ =~= path_to_package@ + "/src"@) by {
            reveal_strlit("/");
            reveal_strlit("src");
            reveal_strlit("/src");
        }
        assert(path_to_package@ + "/"@ + "src/std"@ =~= path_to_package@ + "/src/std"@) by {
            reveal_strlit("/");
            reveal_strlit("src/std");
            reveal_strlit("/src/std");
        }
        assert(path_to_package@ + "/"@ + "dependencies"@ =~= path_to_package@ + "/dependencies"@)
            by {
            reveal_strlit("/");
            reveal_strlit("dependencies");
            reveal_strlit("/dependencies");
        }
    }
    let mut files: Vec<ScaffoldFile> = Vec::new();
    files.push(
        ScaffoldFile {
            path: join2(path_to_package, package.entrypoint.as_str()),
            contents: create_entrypoint_script(package),
            executable: true,
        },
    );
    files.push(
        ScaffoldFile {
            path: join2(path_to_package, "package.json"),
            contents: write_manifest(package),
            executable: false,
        },
    );
    files.push(
        ScaffoldFile {
            path: join2(path_to_package, package.install.setup_script.as_str()),
            contents: create_setup_script(package),
            executable: true,
        },
    );
    files.push(
        ScaffoldFile {
            path: join2(path_to_package, package.uninstall.as_str()),
            contents: create_uninstall_script(package),
            executable: true,
        },
    );
    files.push(
        ScaffoldFile {
            path: join2(path_to_package, "src/std/include.sh"),
            contents: create_include_script(package),
            executable: true,
        },
    );
    proof {
        assert(path_to_package@ + "/"@ + "package.json"@ =~= path_to_package@ + "/package.json"@)
            by {
            reveal_strlit("/");
            reveal_strlit("package.json");
            reveal_strlit("/package.json");
        }
        assert(path_to_package@ + "/"@ + "src/std/include.sh"@ =~= path_to_package@
            + "/src/std/include.sh"@) by {
            reveal_strlit("/");
            reveal_strlit("src/std/include.sh");
            reveal_strlit("/src/std/include.sh");
        }
    }
    Ok(ScaffoldPlan { dirs, files })
}

} // verus!
