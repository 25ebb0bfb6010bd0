//! Generator configuration for project scaffolding: per-language settings
//! and the generator block rendered into source text.

use vstd::prelude::*;

verus! {

/// Settings of a Python project.
pub struct PythonConfig {
    pub project_root: String,
    pub test_command: String,
    pub install_command: String,
    pub package_version_command: String,
}

/// Settings of a TypeScript project.
pub struct TypeScriptConfig {
    pub project_root: String,
    pub test_command: String,
    pub install_command: String,
    pub package_version_command: String,
}

/// The language a project generates clients for, with its settings.
pub enum LanguageConfig {
    Python(PythonConfig),
    TypeScript(TypeScriptConfig),
}

impl LanguageConfig {
    /// The configured project root, read off the variant.
    pub open spec fn spec_project_root(&self) -> Seq<char> {
        match self {
            LanguageConfig::Python(py) => py.project_root@,
            LanguageConfig::TypeScript(ts) => ts.project_root@,
        }
    }

    /// The language's display name.
    pub open spec fn spec_name(&self) -> Seq<char> {
        match self {
            LanguageConfig::Python(_) => "python"@,
            LanguageConfig::TypeScript(_) => "typeScript"@,
        }
    }

    /// Where the non-generated source code lives.
    pub fn project_root(&self) -> (r: &String)
        ensures
            r@ == self.spec_project_root(),
    {
        match self {
            LanguageConfig::Python(py) => &py.project_root,
            LanguageConfig::TypeScript(ts) => &ts.project_root,
        }
    }

    /// The language's display name.
    pub fn name(&self) -> (r: String)
        ensures
            r@ == self.spec_name(),
    {
        match self {
            LanguageConfig::Python(_) => String::from_str("python"),
            LanguageConfig::TypeScript(_) => String::from_str("typeScript"),
        }
    }

    /// The command that installs client dependencies.
    pub fn install_command(&self) -> (r: String)
        ensures
            r@ == (match self {
                LanguageConfig::Python(py) => py.install_command@,
                LanguageConfig::TypeScript(ts) => ts.install_command@,
            }),
    {
        match self {
            LanguageConfig::Python(py) => py.install_command.clone(),
            LanguageConfig::TypeScript(ts) => ts.install_command.clone(),
        }
    }

    /// The command that runs tests, with an optional prefix prepended.
    pub fn test_command(&self, prefix: Option<&str>) -> (r: String)
        ensures
            r@ == ({
                let base = match self {
                    LanguageConfig::Python(py) => py.test_command@,
                    LanguageConfig::TypeScript(ts) => ts.test_command@,
                };
                match prefix {
                    Some(p) => p@ + " "@ + base,
                    None => base,
                }
            }),
    {
        let base = match self {
            LanguageConfig::Python(py) => py.test_command.clone(),
            LanguageConfig::TypeScript(ts) => ts.test_command.clone(),
        };
        match prefix {
            Some(p) => {
                let mut out = String::from_str(p);
                out.append(" ");
                out.append(base.as_str());
                out
            },
            None => base,
        }
    }

    /// The command that reports the installed package version.
    pub fn package_version_command(&self) -> (r: String)
        ensures
            r@ == (match self {
                LanguageConfig::Python(py) => py.package_version_command@,
                LanguageConfig::TypeScript(ts) => ts.package_version_command@,
            }),
    {
        match self {
            LanguageConfig::Python(py) => py.package_version_command.clone(),
            LanguageConfig::TypeScript(ts) => ts.package_version_command.clone(),
        }
    }
}

/// One generator block of a project's source configuration.
pub struct Generator {
    pub language: String,
    pub project_root: String,
    pub test_command: String,
    pub install_command: String,
    pub package_version_command: String,
}

/// What `Generator::to_baml` renders: the generator block, piece by
/// piece.
pub open spec fn spec_generator_block(
    language: Seq<char>,
    project_root: Seq<char>,
    test_command: Seq<char>,
    install_command: Seq<char>,
    package_version_command: Seq<char>,
) -> Seq<char> {
    "generator lang_"@ + language + " {\n  language "@ + language
        + "\n  // This is where your non-baml source code located\n  // (relative directory where pyproject.toml, package.json, etc. lives)\n  project_root \""@
        + project_root
        + "\"\n  // This command is used by \"baml test\" to run tests\n  // defined in the playground\n  test_command \""@
        + test_command
        + "\"\n  // This command is used by \"baml update-client\" to install\n  // dependencies to your language environment\n  install_command \""@
        + install_command + "\"\n  package_version_command \""@ + package_version_command
        + "\"\n}"@
}

impl Generator {
    /// Bundles one language's settings into a generator block.
    pub fn new(
        language: String,
        project_root: String,
        test_command: String,
        install_command: String,
        package_version_command: String,
    ) -> (r: Generator)
        ensures
            r.language@ == language@,
            r.project_root@ == project_root@,
            r.test_command@ == test_command@,
            r.install_command@ == install_command@,
            r.package_version_command@ == package_version_command@,
    {
        Generator { language, project_root, test_command, install_command, package_version_command }
    }

    /// Renders the generator block as source text.
    pub fn to_baml(&self) -> (r: String)
        ensures
            r@ == spec_generator_block(
                self.language@,
                self.project_root@,
                self.test_command@,
                self.install_command@,
                self.package_version_command@,
            ),
    {
        let mut out = String::from_str("generator lang_");
        out.append(self.language.as_str());
        out.append(" {\n  language ");
        out.append(self.language.as_str());
        out.append(
            "\n  // This is where your non-baml source code located\n  // (relative directory where pyproject.toml, package.json, etc. lives)\n  project_root \"",
        );
        out.append(self.project_root.as_str());
        out.append(
            "\"\n  // This command is used by \"baml test\" to run tests\n  // defined in the playground\n  test_command \"",
        );
        out.append(self.test_command.as_str());
        out.append(
            "\"\n  // This command is used by \"baml update-client\" to install\n  // dependencies to your language environment\n  install_command \"",
        );
        out.append(self.install_command.as_str());
        out.append("\"\n  package_version_command \"");
        out.append(self.package_version_command.as_str());
        out.append("\"\n}");
        out
    }
}

} // verus!
