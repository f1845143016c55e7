//! Service discovery: reading project files into startable services.
//!
//! The embedding program lists each search path and hands the relevant
//! file contents in; this module parses npm manifests, compose files,
//! Procfiles and Python entry points into discovered services, and plans
//! the command that starts one. Spawning the command, like reading the
//! files, is the embedding program's work.

use vstd::prelude::*;

use crate::text;

verus! {

/// How a discovered service is started.
#[derive(Debug)]
pub enum ServiceType {
    /// An npm script of a package manifest.
    NpmScript { script_name: String, package_json_path: String },
    /// A service of a compose file.
    DockerCompose { service_name: String, compose_file_path: String },
    /// A process of a Procfile.
    Procfile { process_name: String, procfile_path: String },
    /// A Python entry-point script.
    PythonApp { script_path: String },
    /// An explicit command line.
    Custom { command: Vec<String>, working_dir: String },
}

/// The model of a service type, with text as character sequences.
pub ghost enum ServiceTypeModel {
    NpmScript { script_name: Seq<char>, package_json_path: Seq<char> },
    DockerCompose { service_name: Seq<char>, compose_file_path: Seq<char> },
    Procfile { process_name: Seq<char>, procfile_path: Seq<char> },
    PythonApp { script_path: Seq<char> },
    Custom { command: Seq<Seq<char>>, working_dir: Seq<char> },
}

impl ServiceType {
    /// The service type's model.
    pub open spec fn model(&self) -> ServiceTypeModel {
        match self {
            ServiceType::NpmScript { script_name, package_json_path } => ServiceTypeModel::NpmScript {
                script_name: script_name@,
                package_json_path: package_json_path@,
            },
            ServiceType::DockerCompose { service_name, compose_file_path } => ServiceTypeModel::DockerCompose {
                service_name: service_name@,
                compose_file_path: compose_file_path@,
            },
            ServiceType::Procfile { process_name, procfile_path } => ServiceTypeModel::Procfile {
                process_name: process_name@,
                procfile_path: procfile_path@,
            },
            ServiceType::PythonApp { script_path } => ServiceTypeModel::PythonApp {
                script_path: script_path@,
            },
            ServiceType::Custom { command, working_dir } => ServiceTypeModel::Custom {
                command: command.deep_view(),
                working_dir: working_dir@,
            },
        }
    }
}

/// One service found in a search path.
#[derive(Debug)]
pub struct DiscoveredService {
    pub name: String,
    pub service_type: ServiceType,
    pub working_directory: String,
    pub inferred_port: Option<u16>,
    pub description: String,
}

/// The model of a discovered service.
pub ghost struct ServiceModel {
    pub name: Seq<char>,
    pub service_type: ServiceTypeModel,
    pub working_directory: Seq<char>,
    pub inferred_port: Option<u16>,
    pub description: Seq<char>,
}

impl DiscoveredService {
    /// The service's model.
    pub open spec fn model(&self) -> ServiceModel {
        ServiceModel {
            name: self.name@,
            service_type: self.service_type.model(),
            working_directory: self.working_directory@,
            inferred_port: self.inferred_port,
            description: self.description@,
        }
    }
}

/// The models of a service sequence.
pub open spec fn service_models(s: Seq<DiscoveredService>) -> Seq<ServiceModel> {
    s.map_values(|x: DiscoveredService| x.model())
}

/// The process name and command of one Procfile line, where the line
/// carries both: the trimmed text before the first `':'` and after it,
/// each non-empty; blank lines and comments carry nothing.
pub open spec fn spec_procfile_line(line: Seq<char>) -> Option<(Seq<char>, Seq<char>)> {
    let t = text::trim_spec(line);
    if t.len() == 0 || t[0] == '#' {
        None
    } else {
        let c = text::char_pos_from(t, ':', 0);
        if c >= t.len() {
            None
        } else {
            let name = text::trim_spec(t.take(c));
            let cmd = text::trim_spec(t.skip(c + 1));
            if name.len() > 0 && cmd.len() > 0 {
                Some((name, cmd))
            } else {
                None
            }
        }
    }
}

/// Whether a compose service name is well formed: letters, digits, `'_'`
/// and `'-'` only.
pub open spec fn docker_name_ok(name: Seq<char>) -> bool {
    forall|k: int|
        0 <= k < name.len() ==> text::alnum(#[trigger] name[k]) || name[k] == '_' || name[k] == '-'
}

/// The service name of one compose-file line, where the line declares
/// one: exactly two spaces of indentation, a trailing `':'`, and a name
/// of letters, digits, `'_'` and `'-'`; the `services:` key itself and
/// comments declare nothing.
pub open spec fn spec_docker_service_name(line: Seq<char>) -> Option<Seq<char>> {
    if !text::starts_with_seq(line, "  "@) || text::starts_with_seq(line, "   "@) {
        None
    } else {
        let t = text::trim_spec(line);
        if text::starts_with_seq(t, "services:"@) || (t.len() > 0 && t[0] == '#') {
            None
        } else if text::ends_with_seq(t, ":"@) {
            let name = text::trim_spec(text::strip_all_suffix(t, ":"@));
            if name.len() > 0 && docker_name_ok(name) {
                Some(name)
            } else {
                None
            }
        } else {
            None
        }
    }
}

/// The port a script name suggests: the stock front-end scripts suggest
/// 3000, the back-end ones 8000.
pub open spec fn spec_infer_port(script: Seq<char>) -> Option<u16> {
    if script == "dev"@ || script == "start"@ || script == "serve"@ || script == "dev:frontend"@ {
        Some(3000u16)
    } else if script == "dev:api"@ || script == "start:api"@ || script == "dev:backend"@ {
        Some(8000u16)
    } else {
        None
    }
}

/// `root` and `file` joined with a path separator.
pub open spec fn spec_path_join(root: Seq<char>, file: Seq<char>) -> Seq<char> {
    if root.len() > 0 && root.last() == '/' {
        root + file
    } else {
        root + "/"@ + file
    }
}

/// The directory of a path: the text before the last `'/'`, or `.` when
/// the path has none.
pub open spec fn spec_parent_dir(path: Seq<char>) -> Seq<char> {
    if text::has_char(path, '/') {
        path.take(path.len() - text::after_last(path, '/').len() - 1)
    } else {
        "."@
    }
}

/// The text after the last `'/'` of a path.
pub open spec fn spec_file_name(path: Seq<char>) -> Seq<char> {
    text::after_last(path, '/')
}

/// Parses one Procfile line.
pub fn parse_procfile_line(line: &str) -> (r: Option<(String, String)>)
    ensures
        r.deep_view() == spec_procfile_line(line@),
{
    let t = text::trim(line);
    let tlen = t.as_str().unicode_len();
    if tlen == 0 || t.as_str().get_char(0) == '#' {
        return None;
    }
    let c: usize = match text::find_char(t.as_str(), ':') {
        Some(c) => c,
        None => {
            return None;
        },
    };
    let before = t.as_str().substring_char(0, c).to_owned();
    let after = t.as_str().substring_char(c + 1, tlen).to_owned();
    proof {
        assert(before@ =~= text::trim_spec(line@).take(c as int));
        assert(after@ =~= text::trim_spec(line@).skip(c + 1));
    }
    let name = text::trim(before.as_str());
    let cmd = text::trim(after.as_str());
    if name.as_str().unicode_len() > 0 && cmd.as_str().unicode_len() > 0 {
        Some((name, cmd))
    } else {
        None
    }
}

/// Reads a service name from one compose-file line.
pub fn extract_docker_service_name(line: &str) -> (r: Option<String>)
    ensures
        r.deep_view() == spec_docker_service_name(line@),
{
    proof {
        reveal_strlit("  ");
        reveal_strlit("   ");
        reveal_strlit(":");
    }
    if !text::starts_with(line, "  ") || text::starts_with(line, "   ") {
        return None;
    }
    let t = text::trim(line);
    let tlen = t.as_str().unicode_len();
    if text::starts_with(t.as_str(), "services:") || (tlen > 0 && t.as_str().get_char(0) == '#') {
        return None;
    }
    if !text::ends_with(t.as_str(), ":") {
        return None;
    }
    let stripped = text::trim_end_matches(t.as_str(), ":");
    let name = text::trim(stripped.as_str());
    let nlen = name.as_str().unicode_len();
    if nlen == 0 {
        return None;
    }
    proof {
        assert(spec_docker_service_name(line@) == (if docker_name_ok(name@) {
            Some(name@)
        } else {
            None
        }));
    }
    let mut k: usize = 0;
    while k < nlen
        invariant
            0 <= k <= nlen,
            nlen == name@.len(),
            spec_docker_service_name(line@) == (if docker_name_ok(name@) {
                Some(name@)
            } else {
                None
            }),
            forall|j: int|
                0 <= j < k ==> text::alnum(#[trigger] name@[j]) || name@[j] == '_' || name@[j]
                    == '-',
        decreases nlen - k,
    {
        let c = name.as_str().get_char(k);
        if !text::is_alphanumeric(c) && c != '_' && c != '-' {
            assert(!docker_name_ok(name@));
            return None;
        }
        k = k + 1;
    }
    assert(docker_name_ok(name@));
    Some(name)
}

/// Infers a port from a script name.
pub fn infer_port_from_script_name(script_name: &str) -> (r: Option<u16>)
    ensures
        r == spec_infer_port(script_name@),
{
    if text::str_eq(script_name, "dev") || text::str_eq(script_name, "start") || text::str_eq(
        script_name,
        "serve",
    ) || text::str_eq(script_name, "dev:frontend") {
        Some(3000)
    } else if text::str_eq(script_name, "dev:api") || text::str_eq(script_name, "start:api")
        || text::str_eq(script_name, "dev:backend") {
        Some(8000)
    } else {
        None
    }
}

/// Joins a search path and a file name.
pub fn path_join(root: &str, file: &str) -> (r: String)
    ensures
        r@ == spec_path_join(root@, file@),
{
    let rlen = root.unicode_len();
    let mut out = root.to_owned();
    if rlen == 0 || root.get_char(rlen - 1) != '/' {
        out.append("/");
    }
    out.append(file);
    out
}

/// The directory of a path.
pub fn parent_dir(path: &str) -> (r: String)
    ensures
        r@ == spec_parent_dir(path@),
{
    if !text::contains_char(path, '/') {
        return ".".to_owned();
    }
    let tail = text::suffix_after_last(path, '/');
    proof {
        text::lemma_after_last_shorter(path@, '/');
    }
    let cut = path.unicode_len() - tail.as_str().unicode_len() - 1;
    let r = path.substring_char(0, cut).to_owned();
    proof {
        assert(text::after_last(path@, '/').len() <= path@.len());
        assert(r@ =~= path@.take(path@.len() - text::after_last(path@, '/').len() - 1));
    }
    r
}

/// What parsing a package manifest yields: nothing where the text is not
/// well-formed, an empty table where it has no `scripts` object, else the
/// script names in document order — a function of the text alone.
pub uninterp spec fn npm_manifest_scripts(content: Seq<char>) -> Option<Option<Seq<Seq<char>>>>;

/// Relies on serde_json: parses the manifest text and picks the keys of
/// its `scripts` object, a function of the text alone.
#[verifier::external_body]
fn parse_package_scripts(content: &str) -> (r: Option<Option<Vec<String>>>)
    ensures
        r.deep_view() == npm_manifest_scripts(content@),
{
    let value: serde_json::Value = match serde_json::from_str(content) {
        Ok(v) => v,
        Err(_) => return None,
    };
    match value.get("scripts").and_then(|s| s.as_object()) {
        Some(scripts) => Some(Some(scripts.keys().cloned().collect())),
        None => Some(None),
    }
}

/// Whether a script name is skipped by discovery: test and build scripts
/// are not services.
pub open spec fn script_skipped(name: Seq<char>) -> bool {
    text::contains_seq(name, "test"@) || text::contains_seq(name, "build"@)
}

/// The model of the service discovered for one npm script.
pub open spec fn npm_service_model(root: Seq<char>, pkg: Seq<char>, script: Seq<char>) -> ServiceModel {
    ServiceModel {
        name: "npm:"@ + script,
        service_type: ServiceTypeModel::NpmScript { script_name: script, package_json_path: pkg },
        working_directory: root,
        inferred_port: spec_infer_port(script),
        description: "npm run "@ + script + " (Node.js)"@,
    }
}

/// The services discovered from the script names of one manifest, in
/// order, with test and build scripts skipped.
pub open spec fn spec_npm_services(root: Seq<char>, pkg: Seq<char>, names: Seq<Seq<char>>) -> Seq<
    ServiceModel,
>
    decreases names.len(),
{
    if names.len() == 0 {
        seq![]
    } else {
        let pre = spec_npm_services(root, pkg, names.drop_last());
        if script_skipped(names.last()) {
            pre
        } else {
            pre.push(npm_service_model(root, pkg, names.last()))
        }
    }
}

/// The model of the service discovered for one compose service name.
pub open spec fn docker_service_model(root: Seq<char>, compose: Seq<char>, name: Seq<char>) -> ServiceModel {
    ServiceModel {
        name: "docker:"@ + name,
        service_type: ServiceTypeModel::DockerCompose {
            service_name: name,
            compose_file_path: compose,
        },
        working_directory: root,
        inferred_port: None,
        description: "Docker Compose service: "@ + name,
    }
}

/// The services declared by the lines of one compose file, in order.
pub open spec fn spec_docker_services(root: Seq<char>, compose: Seq<char>, lines: Seq<Seq<char>>) -> Seq<ServiceModel>
    decreases lines.len(),
{
    if lines.len() == 0 {
        seq![]
    } else {
        let pre = spec_docker_services(root, compose, lines.drop_last());
        match spec_docker_service_name(lines.last()) {
            Some(n) => pre.push(docker_service_model(root, compose, n)),
            None => pre,
        }
    }
}

/// The model of the service discovered for one Procfile process.
pub open spec fn procfile_service_model(root: Seq<char>, procfile: Seq<char>, name: Seq<char>) -> ServiceModel {
    ServiceModel {
        name: "procfile:"@ + name,
        service_type: ServiceTypeModel::Procfile { process_name: name, procfile_path: procfile },
        working_directory: root,
        inferred_port: None,
        description: "Procfile process: "@ + name,
    }
}

/// The services declared by the lines of a Procfile, in order.
pub open spec fn spec_procfile_services(root: Seq<char>, procfile: Seq<char>, lines: Seq<Seq<char>>) -> Seq<ServiceModel>
    decreases lines.len(),
{
    if lines.len() == 0 {
        seq![]
    } else {
        let pre = spec_procfile_services(root, procfile, lines.drop_last());
        match spec_procfile_line(lines.last()) {
            Some(nc) => pre.push(procfile_service_model(root, procfile, nc.0)),
            None => pre,
        }
    }
}

/// The model of the service discovered for one Python entry file.
pub open spec fn python_service_model(root: Seq<char>, file: Seq<char>) -> ServiceModel {
    ServiceModel {
        name: "python:"@ + file,
        service_type: ServiceTypeModel::PythonApp { script_path: spec_path_join(root, file) },
        working_directory: root,
        inferred_port: if file == "manage.py"@ {
            Some(8000u16)
        } else {
            Some(5000u16)
        },
        description: "Python app: "@ + file,
    }
}

/// The Python entry files discovery looks for, in the order it checks
/// them.
pub open spec fn python_entry_files() -> Seq<Seq<char>> {
    seq!["app.py"@, "main.py"@, "manage.py"@, "run.py"@]
}

/// The services discovered from the Python entry files present, in check
/// order.
pub open spec fn spec_python_services(root: Seq<char>, present: Seq<Seq<char>>) -> Seq<ServiceModel>
    decreases python_entry_files().len(),
{
    spec_python_services_from(root, present, 0)
}

/// The Python services from check index `i` on.
pub open spec fn spec_python_services_from(root: Seq<char>, present: Seq<Seq<char>>, i: int) -> Seq<ServiceModel>
    decreases python_entry_files().len() - i,
{
    if i < 0 || i >= python_entry_files().len() {
        seq![]
    } else {
        (if present.contains(python_entry_files()[i]) {
            seq![python_service_model(root, python_entry_files()[i])]
        } else {
            Seq::<ServiceModel>::empty()
        }) + spec_python_services_from(root, present, i + 1)
    }
}

/// What the embedding program read from one search path: the path itself
/// and the contents of the project files found in it.
#[derive(Debug)]
pub struct SearchPathListing {
    /// The search path.
    pub root: String,
    /// The text of `package.json`, where present.
    pub package_json: Option<String>,
    /// The compose files present, with their contents.
    pub compose_files: Vec<NamedFile>,
    /// The text of `Procfile`, where present.
    pub procfile: Option<String>,
    /// Which of the known Python entry files are present.
    pub python_files: Vec<String>,
}

/// One file, by name and content.
#[derive(Debug)]
pub struct NamedFile {
    pub name: String,
    pub content: String,
}

/// A reason discovery or start planning failed.
#[derive(Debug, Clone, Copy, PartialEq, Eq, Structural)]
pub enum ServiceError {
    /// A package manifest did not parse.
    InvalidManifest,
    /// The named process is not in the Procfile.
    ProcessNotFound,
    /// A Procfile process was to be started but no Procfile text was
    /// supplied.
    MissingProcfile,
    /// A custom service has an empty command.
    EmptyCommand,
}

/// Discovers services in the project files the embedding program reads
/// from its search paths.
pub struct ServiceDetector {
    search_paths: Vec<String>,
}

impl ServiceDetector {
    /// The search paths.
    pub closed spec fn spec_search_paths(&self) -> Seq<Seq<char>> {
        self.search_paths.deep_view()
    }

    /// A detector over the current directory.
    pub fn new() -> (r: ServiceDetector)
        ensures
            r.spec_search_paths() == seq!["."@],
    {
        let mut paths: Vec<String> = Vec::new();
        paths.push(".".to_owned());
        let r = ServiceDetector { search_paths: paths };
        proof {
            assert(r.spec_search_paths() =~= seq!["."@]);
        }
        r
    }

    /// A detector over the given search paths.
    pub fn with_paths(paths: Vec<String>) -> (r: ServiceDetector)
        ensures
            r.spec_search_paths() == paths.deep_view(),
    {
        ServiceDetector { search_paths: paths }
    }
}

fn discover_npm_services(root: &str, pkg_path: &str, content: &str, out: &mut Vec<
    DiscoveredService,
>) -> (r: Result<(), ServiceError>)
    ensures
        match r {
            Ok(()) => npm_manifest_scripts(content@) is Some && service_models(final(out)@)
                == service_models(old(out)@) + (match npm_manifest_scripts(content@) {
                Some(Some(names)) => spec_npm_services(root@, pkg_path@, names),
                _ => Seq::<ServiceModel>::empty(),
            }),
            Err(e) => e == ServiceError::InvalidManifest && npm_manifest_scripts(content@)
                is None && final(out)@ == old(out)@,
        },
{
    let ghost base = service_models(out@);
    let names = match parse_package_scripts(content) {
        None => {
            return Err(ServiceError::InvalidManifest);
        },
        Some(None) => {
            proof {
                assert(service_models(out@) =~= base + Seq::<ServiceModel>::empty());
            }
            return Ok(());
        },
        Some(Some(names)) => names,
    };
    let ghost all = names.deep_view();
    let mut i: usize = 0;
    while i < names.len()
        invariant
            0 <= i <= names@.len(),
            all == names.deep_view(),
            root@ == root@,
            service_models(out@) == base + spec_npm_services(root@, pkg_path@, all.take(i as int)),
        decreases names@.len() - i,
    {
        proof {
            assert(all.take(i + 1).drop_last() =~= all.take(i as int));
            assert(all.take(i + 1).last() == all[i as int]);
            assert(all[i as int] == names@[i as int]@);
        }
        let script = names[i].as_str();
        if !text::contains(script, "test") && !text::contains(script, "build") {
            let mut svc_name = "npm:".to_owned();
            svc_name.append(script);
            let mut desc = "npm run ".to_owned();
            desc.append(script);
            desc.append(" (Node.js)");
            let port = infer_port_from_script_name(script);
            let svc = DiscoveredService {
                name: svc_name,
                service_type: ServiceType::NpmScript {
                    script_name: script.to_owned(),
                    package_json_path: pkg_path.to_owned(),
                },
                working_directory: root.to_owned(),
                inferred_port: port,
                description: desc,
            };
            proof {
                assert(svc.model() == npm_service_model(root@, pkg_path@, all[i as int]));
            }
            let ghost pre_seq = out@;
            out.push(svc);
            proof {
                assert(out@ =~= pre_seq.push(svc));
                assert(service_models(out@) =~= service_models(pre_seq).push(svc.model()));
                assert(spec_npm_services(root@, pkg_path@, all.take(i + 1))
                    == spec_npm_services(root@, pkg_path@, all.take(i as int)).push(
                    npm_service_model(root@, pkg_path@, all[i as int]),
                ));
                assert(service_models(out@) =~= base + spec_npm_services(
                    root@,
                    pkg_path@,
                    all.take(i + 1),
                ));
            }
        }
        i = i + 1;
    }
    proof {
        assert(all.take(all.len() as int) =~= all);
    }
    Ok(())
}

fn discover_docker_file(root: &str, compose_path: &str, content: &str, out: &mut Vec<
    DiscoveredService,
>)
    ensures
        service_models(final(out)@) == service_models(old(out)@) + spec_docker_services(
            root@,
            compose_path@,
            text::spec_lines(content@),
        ),
{
    let ghost base = service_models(out@);
    let ghost lines_view = text::spec_lines(content@);
    let lines = text::split_lines(content);
    let mut i: usize = 0;
    while i < lines.len()
        invariant
            0 <= i <= lines@.len(),
            lines.deep_view() == lines_view,
            service_models(out@) == base + spec_docker_services(
                root@,
                compose_path@,
                lines_view.take(i as int),
            ),
        decreases lines@.len() - i,
    {
        proof {
            assert(lines_view.take(i + 1).drop_last() =~= lines_view.take(i as int));
            assert(lines_view.take(i + 1).last() == lines_view[i as int]);
            assert(lines.deep_view()[i as int] == lines@[i as int]@);
        }
        if let Some(svc_name) = extract_docker_service_name(lines[i].as_str()) {
            let mut name = "docker:".to_owned();
            name.append(svc_name.as_str());
            let mut desc = "Docker Compose service: ".to_owned();
            desc.append(svc_name.as_str());
            let svc = DiscoveredService {
                name,
                service_type: ServiceType::DockerCompose {
                    service_name: svc_name,
                    compose_file_path: compose_path.to_owned(),
                },
                working_directory: root.to_owned(),
                inferred_port: None,
                description: desc,
            };
            let ghost pre_seq = out@;
            let ghost svc_model = svc.model();
            out.push(svc);
            proof {
                assert(out@ =~= pre_seq.push(out@.last()));
                assert(service_models(out@) =~= service_models(pre_seq).push(svc_model));
                assert(svc_model == docker_service_model(
                    root@,
                    compose_path@,
                    spec_docker_service_name(lines_view[i as int])->Some_0,
                ));
                assert(spec_docker_services(root@, compose_path@, lines_view.take(i + 1))
                    == spec_docker_services(root@, compose_path@, lines_view.take(i as int)).push(
                    docker_service_model(
                        root@,
                        compose_path@,
                        spec_docker_service_name(lines_view[i as int])->Some_0,
                    ),
                ));
                assert(service_models(out@) =~= base + spec_docker_services(
                    root@,
                    compose_path@,
                    lines_view.take(i + 1),
                ));
            }
        }
        i = i + 1;
    }
    proof {
        assert(lines_view.take(lines_view.len() as int) =~= lines_view);
    }
}

fn discover_procfile_services(root: &str, procfile_path: &str, content: &str, out: &mut Vec<
    DiscoveredService,
>)
    ensures
        service_models(final(out)@) == service_models(old(out)@) + spec_procfile_services(
            root@,
            procfile_path@,
            text::spec_lines(content@),
        ),
{
    let ghost base = service_models(out@);
    let ghost lines_view = text::spec_lines(content@);
    let lines = text::split_lines(content);
    let mut i: usize = 0;
    while i < lines.len()
        invariant
            0 <= i <= lines@.len(),
            lines.deep_view() == lines_view,
            service_models(out@) == base + spec_procfile_services(
                root@,
                procfile_path@,
                lines_view.take(i as int),
            ),
        decreases lines@.len() - i,
    {
        proof {
            assert(lines_view.take(i + 1).drop_last() =~= lines_view.take(i as int));
            assert(lines_view.take(i + 1).last() == lines_view[i as int]);
            assert(lines.deep_view()[i as int] == lines@[i as int]@);
        }
        if let Some((proc_name, _cmd)) = parse_procfile_line(lines[i].as_str()) {
            let mut name = "procfile:".to_owned();
            name.append(proc_name.as_str());
            let mut desc = "Procfile process: ".to_owned();
            desc.append(proc_name.as_str());
            let svc = DiscoveredService {
                name,
                service_type: ServiceType::Procfile {
                    process_name: proc_name,
                    procfile_path: procfile_path.to_owned(),
                },
                working_directory: root.to_owned(),
                inferred_port: None,
                description: desc,
            };
            let ghost pre_seq = out@;
            let ghost svc_model = svc.model();
            out.push(svc);
            proof {
                assert(out@ =~= pre_seq.push(out@.last()));
                assert(service_models(out@) =~= service_models(pre_seq).push(svc_model));
                assert(svc_model == procfile_service_model(
                    root@,
                    procfile_path@,
                    spec_procfile_line(lines_view[i as int])->Some_0.0,
                ));
                assert(spec_procfile_services(root@, procfile_path@, lines_view.take(i + 1))
                    == spec_procfile_services(root@, procfile_path@, lines_view.take(i as int))
                    .push(
                    procfile_service_model(
                        root@,
                        procfile_path@,
                        spec_procfile_line(lines_view[i as int])->Some_0.0,
                    ),
                ));
                assert(service_models(out@) =~= base + spec_procfile_services(
                    root@,
                    procfile_path@,
                    lines_view.take(i + 1),
                ));
            }
        }
        i = i + 1;
    }
    proof {
        assert(lines_view.take(lines_view.len() as int) =~= lines_view);
    }
}

impl ServiceDetector {
    /// Discovers Python services: the known entry files present in the
    /// search path, with the framework's stock port.
    pub fn discover_python_services(root: &str, present_files: &Vec<String>, out: &mut Vec<
        DiscoveredService,
    >)
        ensures
            service_models(final(out)@) == service_models(old(out)@) + spec_python_services(
                root@,
                present_files.deep_view(),
            ),
    {
        let ghost base = service_models(out@);
        let ghost present = present_files.deep_view();
        let candidates: [&str; 4] = ["app.py", "main.py", "manage.py", "run.py"];
        proof {
            reveal_strlit("app.py");
            reveal_strlit("main.py");
            reveal_strlit("manage.py");
            reveal_strlit("run.py");
        }
        let mut i: usize = 0;
        while i < 4
            invariant
                0 <= i <= 4,
                present == present_files.deep_view(),
                candidates@.len() == 4,
                forall|k: int|
                    0 <= k < 4 ==> (#[trigger] candidates@[k])@ == python_entry_files()[k],
                spec_python_services(root@, present) == (base + spec_python_services_from(
                    root@,
                    present,
                    0,
                )).skip(base.len() as int) && service_models(out@) + spec_python_services_from(
                    root@,
                    present,
                    i as int,
                ) == base + spec_python_services_from(root@, present, 0),
            decreases 4 - i,
        {
            let file = candidates[i];
            if text::vec_contains_str(present_files, file) {
                let mut name = "python:".to_owned();
                name.append(file);
                let mut desc = "Python app: ".to_owned();
                desc.append(file);
                let is_manage = text::str_eq(file, "manage.py");
                let svc = DiscoveredService {
                    name,
                    service_type: ServiceType::PythonApp { script_path: path_join(root, file) },
                    working_directory: root.to_owned(),
                    inferred_port: if is_manage {
                        Some(8000)
                    } else {
                        Some(5000)
                    },
                    description: desc,
                };
                proof {
                    assert(svc.model() == python_service_model(
                        root@,
                        python_entry_files()[i as int],
                    ));
                }
                out.push(svc);
                proof {
                    assert(service_models(out@) =~= service_models(out@).drop_last().push(
                        python_service_model(root@, python_entry_files()[i as int]),
                    ));
                    assert(service_models(out@) + spec_python_services_from(
                        root@,
                        present,
                        i + 1,
                    ) =~= service_models(out@).drop_last() + spec_python_services_from(
                        root@,
                        present,
                        i as int,
                    ));
                }
            } else {
                proof {
                    assert(spec_python_services_from(root@, present, i as int)
                        == spec_python_services_from(root@, present, i + 1));
                }
            }
            i = i + 1;
        }
        proof {
            assert(spec_python_services_from(root@, present, 4) =~= Seq::<ServiceModel>::empty());
            assert(service_models(out@) =~= service_models(out@) + Seq::<
                ServiceModel,
            >::empty());
            assert(service_models(out@) =~= base + spec_python_services_from(root@, present, 0));
        }
    }
}

/// The model of one named file.
pub ghost struct NamedFileModel {
    pub name: Seq<char>,
    pub content: Seq<char>,
}

impl NamedFile {
    /// The file's model.
    pub open spec fn model(&self) -> NamedFileModel {
        NamedFileModel { name: self.name@, content: self.content@ }
    }
}

/// The model of one search-path listing.
pub ghost struct ListingModel {
    pub root: Seq<char>,
    pub package_json: Option<Seq<char>>,
    pub compose_files: Seq<NamedFileModel>,
    pub procfile: Option<Seq<char>>,
    pub python_files: Seq<Seq<char>>,
}

impl SearchPathListing {
    /// The listing's model.
    pub open spec fn model(&self) -> ListingModel {
        ListingModel {
            root: self.root@,
            package_json: self.package_json.deep_view(),
            compose_files: self.compose_files@.map_values(|f: NamedFile| f.model()),
            procfile: self.procfile.deep_view(),
            python_files: self.python_files.deep_view(),
        }
    }
}

/// Whether a listing's package manifest, if any, parses.
pub open spec fn spec_listing_ok(m: ListingModel) -> bool {
    match m.package_json {
        Some(c) => npm_manifest_scripts(c) is Some,
        None => true,
    }
}

/// The services of a listing's compose files from index `i` on.
pub open spec fn spec_compose_services_from(root: Seq<char>, files: Seq<NamedFileModel>, i: int) -> Seq<ServiceModel>
    decreases files.len() - i,
{
    if i < 0 || i >= files.len() {
        seq![]
    } else {
        spec_docker_services(
            root,
            spec_path_join(root, files[i].name),
            crate::text::spec_lines(files[i].content),
        ) + spec_compose_services_from(root, files, i + 1)
    }
}

/// Every service of one listing: npm scripts, compose services, Procfile
/// processes, then Python entry points, in that order.
pub open spec fn spec_listing_services(m: ListingModel) -> Seq<ServiceModel> {
    (match m.package_json {
        Some(c) => match npm_manifest_scripts(c) {
            Some(Some(names)) => spec_npm_services(
                m.root,
                spec_path_join(m.root, "package.json"@),
                names,
            ),
            _ => Seq::<ServiceModel>::empty(),
        },
        None => Seq::<ServiceModel>::empty(),
    }) + spec_compose_services_from(m.root, m.compose_files, 0) + (match m.procfile {
        Some(c) => spec_procfile_services(
            m.root,
            spec_path_join(m.root, "Procfile"@),
            crate::text::spec_lines(c),
        ),
        None => Seq::<ServiceModel>::empty(),
    }) + spec_python_services(m.root, m.python_files)
}

/// The services of the listings from index `i` on.
pub open spec fn spec_all_services(ls: Seq<ListingModel>, i: int) -> Seq<ServiceModel>
    decreases ls.len() - i,
{
    if i < 0 || i >= ls.len() {
        seq![]
    } else {
        spec_listing_services(ls[i]) + spec_all_services(ls, i + 1)
    }
}

impl ServiceDetector {
    /// Discovers every service in the listed search paths: npm scripts,
    /// compose services, Procfile processes and Python entry points, in
    /// listing order. A package manifest that does not parse fails the
    /// whole discovery, as the embedding program's read errors do.
    pub fn discover_services(&self, listings: &Vec<SearchPathListing>) -> (r: Result<
        Vec<DiscoveredService>,
        ServiceError,
    >)
        ensures
            match r {
                Ok(services) => (forall|k: int|
                    0 <= k < listings@.len() ==> spec_listing_ok(
                        #[trigger] listings@[k].model(),
                    )) && service_models(services@) == spec_all_services(
                    listings@.map_values(|l: SearchPathListing| l.model()),
                    0,
                ),
                Err(e) => e == ServiceError::InvalidManifest && exists|k: int|
                    0 <= k < listings@.len() && !spec_listing_ok(#[trigger] listings@[k].model()),
            },
    {
        let ghost ms = listings@.map_values(|l: SearchPathListing| l.model());
        let mut out: Vec<DiscoveredService> = Vec::new();
        let mut i: usize = 0;
        while i < listings.len()
            invariant
                0 <= i <= listings@.len(),
                ms == listings@.map_values(|l: SearchPathListing| l.model()),
                forall|k: int| 0 <= k < i ==> spec_listing_ok(#[trigger] listings@[k].model()),
                spec_all_services(ms, 0) == service_models(out@) + spec_all_services(
                    ms,
                    i as int,
                ),
            decreases listings@.len() - i,
        {
            let listing = &listings[i];
            let ghost m = ms[i as int];
            let ghost before = service_models(out@);
            proof {
                assert(m == listing.model());
            }
            let root = listing.root.as_str();
            if let Some(content) = &listing.package_json {
                proof {
                    reveal_strlit("package.json");
                }
                let pkg_path = path_join(root, "package.json");
                match discover_npm_services(root, pkg_path.as_str(), content.as_str(), &mut out) {
                    Ok(()) => {},
                    Err(e) => {
                        proof {
                            assert(!spec_listing_ok(listings@[i as int].model()));
                        }
                        return Err(e);
                    },
                }
            }
            let ghost after_npm = service_models(out@);
            let mut f: usize = 0;
            while f < listing.compose_files.len()
                invariant
                    0 <= f <= listing.compose_files@.len(),
                    m == listing.model(),
                    root@ == m.root,
                    after_npm + spec_compose_services_from(m.root, m.compose_files, 0)
                        == service_models(out@) + spec_compose_services_from(
                        m.root,
                        m.compose_files,
                        f as int,
                    ),
                decreases listing.compose_files@.len() - f,
            {
                let file = &listing.compose_files[f];
                proof {
                    assert(m.compose_files[f as int] == file.model());
                }
                let compose_path = path_join(root, file.name.as_str());
                let ghost pre_models = service_models(out@);
                discover_docker_file(root, compose_path.as_str(), file.content.as_str(), &mut out);
                proof {
                    assert(service_models(out@) == pre_models + spec_docker_services(
                        root@,
                        compose_path@,
                        crate::text::spec_lines(file.content@),
                    ));
                    assert(root@ == m.root);
                    assert(compose_path@ == spec_path_join(m.root, m.compose_files[f as int].name));
                    assert(file.content@ == m.compose_files[f as int].content);
                    let dsvc = spec_docker_services(
                        m.root,
                        spec_path_join(m.root, m.compose_files[f as int].name),
                        crate::text::spec_lines(m.compose_files[f as int].content),
                    );
                    assert(service_models(out@) == pre_models + dsvc);
                    assert(spec_compose_services_from(m.root, m.compose_files, f as int) == dsvc
                        + spec_compose_services_from(m.root, m.compose_files, f + 1));
                    assert((pre_models + dsvc) + spec_compose_services_from(
                        m.root,
                        m.compose_files,
                        f + 1,
                    ) =~= pre_models + (dsvc + spec_compose_services_from(
                        m.root,
                        m.compose_files,
                        f + 1,
                    )));
                    assert(after_npm + spec_compose_services_from(m.root, m.compose_files, 0)
                        == service_models(out@) + spec_compose_services_from(
                        m.root,
                        m.compose_files,
                        f + 1,
                    ));
                }
                f = f + 1;
            }
            proof {
                assert(spec_compose_services_from(m.root, m.compose_files, f as int) =~= Seq::<
                    ServiceModel,
                >::empty());
                assert(service_models(out@) =~= after_npm + spec_compose_services_from(
                    m.root,
                    m.compose_files,
                    0,
                ));
            }
            if let Some(content) = &listing.procfile {
                proof {
                    reveal_strlit("Procfile");
                }
                let procfile_path = path_join(root, "Procfile");
                discover_procfile_services(
                    root,
                    procfile_path.as_str(),
                    content.as_str(),
                    &mut out,
                );
            }
            ServiceDetector::discover_python_services(root, &listing.python_files, &mut out);
            proof {
                assert(service_models(out@) =~= before + spec_listing_services(m));
                assert(service_models(out@) + spec_all_services(ms, i + 1) =~= before
                    + spec_all_services(ms, i as int));
            }
            i = i + 1;
        }
        proof {
            assert(spec_all_services(ms, i as int) =~= Seq::<ServiceModel>::empty());
            assert(service_models(out@) =~= service_models(out@) + Seq::<ServiceModel>::empty());
        }
        Ok(out)
    }
}

/// The command of the first Procfile process named `name`.
pub open spec fn spec_procfile_command(lines: Seq<Seq<char>>, name: Seq<char>) -> Option<Seq<char>>
    decreases lines.len(),
{
    if lines.len() == 0 {
        None
    } else {
        match spec_procfile_line(lines[0]) {
            Some(nc) => if nc.0 == name {
                Some(nc.1)
            } else {
                spec_procfile_command(lines.skip(1), name)
            },
            None => spec_procfile_command(lines.skip(1), name),
        }
    }
}

/// Looks the command of a Procfile process up in the Procfile text.
pub fn procfile_command(content: &str, name: &str) -> (r: Option<String>)
    ensures
        r.deep_view() == spec_procfile_command(crate::text::spec_lines(content@), name@),
{
    let ghost lines_view = crate::text::spec_lines(content@);
    let lines = crate::text::split_lines(content);
    let mut i: usize = 0;
    proof {
        assert(lines_view.skip(0) =~= lines_view);
    }
    while i < lines.len()
        invariant
            0 <= i <= lines@.len(),
            lines.deep_view() == lines_view,
            lines_view == crate::text::spec_lines(content@),
            spec_procfile_command(lines_view, name@) == spec_procfile_command(
                lines_view.skip(i as int),
                name@,
            ),
        decreases lines@.len() - i,
    {
        proof {
            assert(lines_view.skip(i as int)[0] == lines_view[i as int]);
            assert(lines_view.skip(i as int).skip(1) =~= lines_view.skip(i + 1));
            assert(lines.deep_view()[i as int] == lines@[i as int]@);
        }
        match parse_procfile_line(lines[i].as_str()) {
            Some(nc) => {
                proof {
                    assert(nc.deep_view() == (nc.0@, nc.1@));
                    assert(spec_procfile_line(lines_view[i as int]) == Some((nc.0@, nc.1@)));
                }
                if crate::text::str_eq(nc.0.as_str(), name) {
                    proof {
                        assert(spec_procfile_command(lines_view.skip(i as int), name@) == Some(
                            nc.1@,
                        ));
                    }
                    return Some(nc.1);
                }
            },
            None => {},
        }
        i = i + 1;
    }
    proof {
        assert(lines_view.skip(i as int) =~= Seq::<Seq<char>>::empty());
    }
    None
}

/// A planned start: the program, its arguments and the directory it runs
/// in.
#[derive(Debug)]
pub struct StartCommand {
    pub program: String,
    pub args: Vec<String>,
    pub working_dir: String,
}

/// The command that starts a service: its program, arguments and working
/// directory, or the reason none can be planned. A Procfile process needs
/// the Procfile text and runs through the stock shell.
pub open spec fn spec_start_command(s: ServiceModel, procfile: Option<Seq<char>>) -> Result<
    (Seq<char>, Seq<Seq<char>>, Seq<char>),
    ServiceError,
> {
    match s.service_type {
        ServiceTypeModel::NpmScript { script_name, package_json_path } => Ok(
            ("npm"@, seq!["run"@, script_name], spec_parent_dir(package_json_path)),
        ),
        ServiceTypeModel::DockerCompose { service_name, compose_file_path } => Ok(
            ("docker-compose"@, seq!["up"@, service_name], spec_parent_dir(compose_file_path)),
        ),
        ServiceTypeModel::Procfile { process_name, procfile_path } => match procfile {
            None => Err(ServiceError::MissingProcfile),
            Some(content) => match spec_procfile_command(
                crate::text::spec_lines(content),
                process_name,
            ) {
                Some(cmd) => Ok(("sh"@, seq!["-c"@, cmd], spec_parent_dir(procfile_path))),
                None => Err(ServiceError::ProcessNotFound),
            },
        },
        ServiceTypeModel::PythonApp { script_path } => Ok(
            (
                "python"@,
                if spec_file_name(script_path) == "manage.py"@ {
                    seq![spec_file_name(script_path), "runserver"@]
                } else {
                    seq![spec_file_name(script_path)]
                },
                spec_parent_dir(script_path),
            ),
        ),
        ServiceTypeModel::Custom { command, working_dir } => if command.len() == 0 {
            Err(ServiceError::EmptyCommand)
        } else {
            Ok((command[0], command.skip(1), working_dir))
        },
    }
}

/// Plans the command that starts a service; the embedding program spawns
/// it and reaps the child.
pub fn start_command(service: &DiscoveredService, procfile: Option<&str>) -> (r: Result<
    StartCommand,
    ServiceError,
>)
    ensures
        match r {
            Ok(c) => spec_start_command(service.model(), procfile.deep_view()) matches Ok(m)
                && c.program@ == m.0 && c.args.deep_view() == m.1 && c.working_dir@ == m.2,
            Err(e) => spec_start_command(service.model(), procfile.deep_view()) == Err::<
                (Seq<char>, Seq<Seq<char>>, Seq<char>),
                ServiceError,
            >(e),
        },
{
    match &service.service_type {
        ServiceType::NpmScript { script_name, package_json_path } => {
            let mut args: Vec<String> = Vec::new();
            args.push("run".to_owned());
            args.push(script_name.clone());
            proof {
                assert(args.deep_view() =~= seq!["run"@, script_name@]);
            }
            Ok(
                StartCommand {
                    program: "npm".to_owned(),
                    args,
                    working_dir: parent_dir(package_json_path.as_str()),
                },
            )
        },
        ServiceType::DockerCompose { service_name, compose_file_path } => {
            let mut args: Vec<String> = Vec::new();
            args.push("up".to_owned());
            args.push(service_name.clone());
            proof {
                assert(args.deep_view() =~= seq!["up"@, service_name@]);
            }
            Ok(
                StartCommand {
                    program: "docker-compose".to_owned(),
                    args,
                    working_dir: parent_dir(compose_file_path.as_str()),
                },
            )
        },
        ServiceType::Procfile { process_name, procfile_path } => {
            let content = match procfile {
                Some(c) => c,
                None => {
                    return Err(ServiceError::MissingProcfile);
                },
            };
            let cmd = match procfile_command(content, process_name.as_str()) {
                Some(cmd) => cmd,
                None => {
                    return Err(ServiceError::ProcessNotFound);
                },
            };
            let ghost cmd_view = cmd@;
            let mut args: Vec<String> = Vec::new();
            args.push("-c".to_owned());
            args.push(cmd);
            proof {
                assert(args.deep_view() =~= seq!["-c"@, cmd_view]);
            }
            Ok(
                StartCommand {
                    program: "sh".to_owned(),
                    args,
                    working_dir: parent_dir(procfile_path.as_str()),
                },
            )
        },
        ServiceType::PythonApp { script_path } => {
            proof {
                reveal_strlit("manage.py");
            }
            let file = crate::text::suffix_after_last(script_path.as_str(), '/');
            let ghost file_view = file@;
            let is_manage = crate::text::str_eq(file.as_str(), "manage.py");
            let mut args: Vec<String> = Vec::new();
            args.push(file);
            if is_manage {
                args.push("runserver".to_owned());
                proof {
                    assert(args.deep_view() =~= seq![file_view, "runserver"@]);
                }
            } else {
                proof {
                    assert(args.deep_view() =~= seq![file_view]);
                }
            }
            Ok(
                StartCommand {
                    program: "python".to_owned(),
                    args,
                    working_dir: parent_dir(script_path.as_str()),
                },
            )
        },
        ServiceType::Custom { command, working_dir } => {
            if command.len() == 0 {
                return Err(ServiceError::EmptyCommand);
            }
            let program = command[0].clone();
            let mut args: Vec<String> = Vec::new();
            let mut k: usize = 1;
            while k < command.len()
                invariant
                    1 <= k <= command@.len(),
                    args@ =~= command@.subrange(1, k as int),
                decreases command@.len() - k,
            {
                args.push(command[k].clone());
                k = k + 1;
            }
            proof {
                assert(args@ =~= command@.skip(1));
                assert(args.deep_view() =~= command.deep_view().skip(1));
            }
            Ok(StartCommand { program, args, working_dir: working_dir.clone() })
        },
    }
}

} // verus!
