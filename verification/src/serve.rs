//! What the development server decides: its settings, when it passes the
//! output of a running drawing on to its viewers, and the names and texts
//! that it writes. The server itself, which watches files and talks to the
//! network, is no part of this library.

use vstd::prelude::*;

verus! {

/// The view of each text, in the same order.
pub open spec fn texts(strings: Seq<String>) -> Seq<Seq<char>> {
    strings.map_values(|s: String| s@)
}

/// Serve a project over a local server, watch it for changes, and build and
/// run it again as necessary.
#[derive(Debug)]
pub struct Serve {
    project: String,
    port: u16,
    extra: Vec<String>,
}

/// A copy of each text, in the same order.
fn copy_texts(strings: &[String]) -> (copies: Vec<String>)
    ensures
        texts(copies@) == texts(strings@),
{
    let mut copies: Vec<String> = Vec::new();
    let mut i: usize = 0;
    while i < strings.len()
        invariant
            i <= strings@.len(),
            copies@.len() == i,
            forall|j: int| 0 <= j < i ==> copies@[j]@ == strings@[j]@,
        decreases strings@.len() - i,
    {
        copies.push(strings[i].clone());
        i += 1;
    }
    assert(texts(copies@) =~= texts(strings@));
    copies
}

impl Clone for Serve {
    fn clone(&self) -> (copy: Self)
        ensures
            copy.spec_project() == self.spec_project(),
            copy.spec_port() == self.spec_port(),
            copy.spec_extra() == self.spec_extra(),
    {
        Serve {
            project: self.project.clone(),
            port: self.port,
            extra: copy_texts(self.extra.as_slice()),
        }
    }
}

impl Serve {
    /// The directory of the project to serve.
    pub closed spec fn spec_project(self) -> Seq<char> {
        self.project@
    }

    /// The port to serve locally on.
    pub closed spec fn spec_port(self) -> u16 {
        self.port
    }

    /// Extra arguments passed along to each run of the project.
    pub closed spec fn spec_extra(self) -> Seq<Seq<char>> {
        texts(self.extra@)
    }

    /// The address on which the server listens: the local host and the
    /// port.
    pub open spec fn spec_address(self) -> Seq<char> {
        "127.0.0.1:"@ + crate::decimal::natural_text(self.spec_port() as nat)
    }

    /// The settings to serve the project in the given directory on the
    /// given port, without extra arguments.
    pub fn new(project: String, port: u16) -> (serve: Serve)
        ensures
            serve.spec_project() == project@,
            serve.spec_port() == port,
            serve.spec_extra() == Seq::<Seq<char>>::empty(),
    {
        let serve = Serve { project, port, extra: Vec::new() };
        assert(serve.spec_extra() =~= Seq::<Seq<char>>::empty());
        serve
    }

    /// The directory of the project to serve.
    pub fn project(&self) -> (project: &str)
        ensures
            project@ == self.spec_project(),
    {
        self.project.as_str()
    }

    /// The port to serve locally on.
    pub fn port(&self) -> (port: u16)
        ensures
            port == self.spec_port(),
    {
        self.port
    }

    /// Extra arguments passed along to each run of the project.
    pub fn extra(&self) -> (extra: &Vec<String>)
        ensures
            texts(extra@) == self.spec_extra(),
    {
        &self.extra
    }

    /// Set the extra arguments, of which none were set before.
    pub fn set_extra(&mut self, extra: &[String])
        requires
            old(self).spec_extra().len() == 0,
        ensures
            final(self).spec_extra() == texts(extra@),
            final(self).spec_project() == old(self).spec_project(),
            final(self).spec_port() == old(self).spec_port(),
    {
        self.extra = copy_texts(extra);
    }

    /// The address on which the server listens.
    pub fn address(&self) -> (address: String)
        ensures
            address@ == self.spec_address(),
    {
        let mut address = String::from_str("127.0.0.1:");
        crate::decimal::push_natural(&mut address, self.port as u128);
        address
    }
}

/// The pattern occurs in the text: some stretch of the text is the pattern.
pub open spec fn occurs_in(pattern: Seq<char>, text: Seq<char>) -> bool {
    exists|i: int|
        0 <= i <= text.len() - pattern.len() && #[trigger] text.subrange(i, i + pattern.len())
            == pattern
}

/// `str::contains` of std, with a string as the pattern: whether the
/// pattern matches a stretch of the text.
#[verifier::external_body]
fn contains_text(text: &str, pattern: &str) -> (found: bool)
    ensures
        found == occurs_in(pattern@, text@),
{
    text.contains(pattern)
}

/// What a running drawing prints before it lists its parameters.
pub open spec fn params_start() -> Seq<char> {
    "fart: PARAMS START"@
}

/// What a running drawing prints after it has listed its parameters.
pub open spec fn params_end() -> Seq<char> {
    "fart: PARAMS END"@
}

/// Whether the server is within a list of parameters once it has seen the
/// given piece of output: not where the piece ends a list, else where it
/// starts one, else as before.
pub open spec fn parsing_after(parsing: bool, output: Seq<char>) -> bool {
    if occurs_in(params_end(), output) {
        false
    } else if occurs_in(params_start(), output) {
        true
    } else {
        parsing
    }
}

/// Collects the output of a running drawing and decides when it goes out to
/// the viewers: a list of parameters goes out in one piece, once it is
/// complete.
#[derive(Debug)]
pub struct OutputRelay {
    buffer: String,
    parsing_params: bool,
}

impl OutputRelay {
    /// The output that was held back so far.
    pub closed spec fn held(self) -> Seq<char> {
        self.buffer@
    }

    /// Whether the relay is within a list of parameters.
    pub closed spec fn parsing(self) -> bool {
        self.parsing_params
    }

    /// A relay that holds nothing back and is in no list of parameters.
    pub fn new() -> (relay: OutputRelay)
        ensures
            relay.held() == Seq::<char>::empty(),
            !relay.parsing(),
    {
        OutputRelay { buffer: String::new(), parsing_params: false }
    }

    /// Take a piece of output. Within a list of parameters the piece is
    /// held back. Else all that was held back goes out, the piece at its
    /// end, and the relay holds nothing back any more.
    pub fn on_output(&mut self, output: &str) -> (event: Option<String>)
        ensures
            final(self).parsing() == parsing_after(old(self).parsing(), output@),
            final(self).parsing() ==> event.is_none() && final(self).held() == old(self).held()
                + output@,
            !final(self).parsing() ==> event.is_some() && event.unwrap()@ == old(self).held()
                + output@ && final(self).held() == Seq::<char>::empty(),
    {
        self.buffer.append(output);
        if contains_text(output, "fart: PARAMS START") {
            self.parsing_params = true;
        }
        if contains_text(output, "fart: PARAMS END") {
            self.parsing_params = false;
        }
        if !self.parsing_params {
            let mut out = String::new();
            out.append(self.buffer.as_str());
            assert(out@ =~= old(self).held() + output@);
            self.buffer = String::new();
            Some(out)
        } else {
            None
        }
    }
}

/// The name of the environment variable that holds the user constant of
/// the given name.
pub open spec fn spec_user_const_variable(name: Seq<char>) -> Seq<char> {
    "FART_USER_CONST_"@ + name
}

/// The name of the environment variable that holds the user constant of
/// the given name.
pub fn user_const_variable(name: &str) -> (variable: String)
    ensures
        variable@ == spec_user_const_variable(name@),
{
    let mut variable = String::from_str("FART_USER_CONST_");
    variable.append(name);
    variable
}

/// The head of the script that sets the user constants again.
pub open spec fn script_head() -> Seq<char> {
    "# fart user consts\n#\n# To re-establish this user const environment, run:\n#\n#    $ source user_consts.sh\n\n"@
}

/// The line of the script that sets one variable.
pub open spec fn export_line(variable: Seq<char>, value: Seq<char>) -> Seq<char> {
    "export "@ + variable + "="@ + value + "\n"@
}

/// The lines of the script that set the given variables, in their order.
pub open spec fn export_lines(consts: Seq<(String, String)>) -> Seq<char>
    decreases consts.len(),
{
    if consts.len() == 0 {
        Seq::empty()
    } else {
        export_lines(consts.drop_last()) + export_line(consts.last().0@, consts.last().1@)
    }
}

/// The script that sets the given variables again: its head, then a line
/// for each variable, in their order.
pub fn user_consts_script(consts: &Vec<(String, String)>) -> (script: String)
    ensures
        script@ == script_head() + export_lines(consts@),
{
    let mut script = String::from_str(
        "# fart user consts\n#\n# To re-establish this user const environment, run:\n#\n#    $ source user_consts.sh\n\n",
    );
    let mut i: usize = 0;
    assert(consts@.take(0) =~= Seq::empty());
    assert(script@ =~= script_head() + export_lines(consts@.take(0)));
    while i < consts.len()
        invariant
            i <= consts@.len(),
            script@ == script_head() + export_lines(consts@.take(i as int)),
        decreases consts@.len() - i,
    {
        let ghost before = script@;
        script.append("export ");
        script.append(consts[i].0.as_str());
        script.append("=");
        script.append(consts[i].1.as_str());
        script.append("\n");
        proof {
            assert(consts@.take(i + 1).drop_last() =~= consts@.take(i as int));
            assert(consts@.take(i + 1).last() == consts@[i as int]);
            assert(script@ =~= before + export_line(consts@[i as int].0@, consts@[i as int].1@));
        }
        i += 1;
    }
    assert(consts@.take(i as int) =~= consts@);
    script
}

/// Whether a file with the given extension is served as an image: only
/// drawings are, which have the extension `svg`.
pub fn is_image_extension(extension: Option<&str>) -> (served: bool)
    ensures
        served == (extension.is_some() && extension.unwrap()@ == "svg"@),
{
    match extension {
        Some(e) => String::from_str(e) == String::from_str("svg"),
        None => false,
    }
}

/// The name of the file that keeps a liked drawing: `liked_`, the time of
/// the like, and the extension `svg`.
pub fn liked_file_name(time: &str) -> (name: String)
    ensures
        name@ == "liked_"@ + time@ + ".svg"@,
{
    let mut name = String::from_str("liked_");
    name.append(time);
    name.append(".svg");
    name
}

/// The message under which a liked drawing is committed: `Liked` and the
/// time of the like.
pub fn liked_message(time: &str) -> (message: String)
    ensures
        message@ == "Liked "@ + time@,
{
    let mut message = String::from_str("Liked ");
    message.append(time);
    message
}

} // verus!
