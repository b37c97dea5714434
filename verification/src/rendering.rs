//! The renderers: accumulate one entry per repository run and produce the
//! final report text, either line-oriented or as a keyed container.
use vstd::prelude::*;
use vstd::string::StringExecFns;
use crate::OutputType;

verus! {

/// The text that permissive UTF-8 decoding yields for the given bytes.
pub uninterp spec fn lossy_of(bytes: Seq<u8>) -> Seq<char>;

/// Relies on `String::from_utf8_lossy`: decodes bytes permissively, replacing
/// invalid sequences rather than failing; the result is a function of the
/// bytes alone.
#[verifier::external_body]
fn utf8_lossy(bytes: &Vec<u8>) -> (r: String)
    ensures
        r@ == lossy_of(bytes@),
{
    String::from_utf8_lossy(bytes).into_owned()
}

/// The captured standard output of one command run.
pub struct ExecutionResult {
    pub stdout: Vec<u8>,
}

impl ExecutionResult {
    /// The captured output decoded permissively into text.
    pub fn stringify(&self) -> (r: String)
        ensures
            r@ == lossy_of(self.stdout@),
    {
        utf8_lossy(&self.stdout)
    }
}

/// One report line: the repository path in parentheses, a separator, the
/// decoded output, and a terminating newline.
pub open spec fn line_of(repo: Seq<char>, out: Seq<u8>) -> Seq<char> {
    "("@ + repo + "): "@ + lossy_of(out) + "\n"@
}

/// Accumulates one line per repository, in call order, into a text buffer.
pub struct StdinRenderer {
    buffer: String,
}

impl StdinRenderer {
    /// The report text accumulated so far.
    pub closed spec fn report(&self) -> Seq<char> {
        self.buffer@
    }

    /// An empty renderer.
    pub fn new() -> (r: Self)
        ensures
            r.report() == Seq::<char>::empty(),
    {
        StdinRenderer { buffer: String::new() }
    }

    /// Appends the report line for one repository run. Never fails.
    pub fn log(&mut self, out: &ExecutionResult, repo: &str) -> (r: Result<(), String>)
        ensures
            r is Ok,
            final(self).report() == old(self).report() + line_of(repo@, out.stdout@),
    {
        self.buffer.append("(");
        self.buffer.append(repo);
        self.buffer.append("): ");
        let decoded = out.stringify();
        self.buffer.append(decoded.as_str());
        self.buffer.append("\n");
        proof {
            assert(self.buffer@ =~= old(self).buffer@ + line_of(repo@, out.stdout@));
        }
        Ok(())
    }

    /// The report so far. Takes the renderer immutably, so rendering twice
    /// with no intervening `log` returns the same text.
    pub fn render(&self) -> (r: &str)
        ensures
            r@ == self.report(),
    {
        self.buffer.as_str()
    }
}

impl Default for StdinRenderer {
    /// An empty renderer.
    fn default() -> (r: Self)
        ensures
            r.report() == Seq::<char>::empty(),
    {
        StdinRenderer::new()
    }
}

/// No two entries carry the same key.
pub open spec fn unique_keys(entries: Seq<(Seq<char>, Seq<char>)>) -> bool {
    forall|a: int, b: int|
        0 <= a < b < entries.len() ==> (#[trigger] entries[a]).0 != (#[trigger] entries[b]).0
}

/// The mapping after one `log` call: an existing entry under the same key is
/// overwritten in place, a fresh key is appended.
pub open spec fn keyed_log(
    entries: Seq<(Seq<char>, Seq<char>)>,
    key: Seq<char>,
    val: Seq<char>,
) -> Seq<(Seq<char>, Seq<char>)> {
    if exists|i: int| 0 <= i < entries.len() && (#[trigger] entries[i]).0 == key {
        entries.update(
            choose|i: int| 0 <= i < entries.len() && (#[trigger] entries[i]).0 == key,
            (key, val),
        )
    } else {
        entries.push((key, val))
    }
}

/// One serialized pair: the key and the value each in double quotes, with a
/// colon and a space between them.
pub open spec fn pair_repr(key: Seq<char>, val: Seq<char>) -> Seq<char> {
    "\""@ + key + "\": \""@ + val + "\""@
}

/// The serialized pairs, a comma separator between any two.
pub open spec fn pairs_repr(entries: Seq<(Seq<char>, Seq<char>)>) -> Seq<char>
    decreases entries.len(),
{
    if entries.len() == 0 {
        Seq::empty()
    } else if entries.len() == 1 {
        pair_repr(entries[0].0, entries[0].1)
    } else {
        pairs_repr(entries.drop_last()) + ", "@ + pair_repr(entries.last().0, entries.last().1)
    }
}

/// The whole keyed report: the serialized pairs inside braces.
pub open spec fn spec_render_keyed(entries: Seq<(Seq<char>, Seq<char>)>) -> Seq<char> {
    "{"@ + pairs_repr(entries) + "}"@
}

/// Accumulates one entry per repository, keyed by the repository's path
/// string; a second `log` for the same path overwrites its entry.
pub struct JSONRenderer {
    entries: Vec<(String, String)>,
}

impl JSONRenderer {
    /// The accumulated mapping, in insertion order.
    pub closed spec fn entries_view(&self) -> Seq<(Seq<char>, Seq<char>)> {
        Seq::new(self.entries@.len(), |i: int| (self.entries@[i].0@, self.entries@[i].1@))
    }

    /// The keys are unique: at most one entry per repository path.
    pub open spec fn wf(&self) -> bool {
        unique_keys(self.entries_view())
    }

    /// An empty renderer.
    pub fn new() -> (r: Self)
        ensures
            r.entries_view() == Seq::<(Seq<char>, Seq<char>)>::empty(),
            r.wf(),
    {
        let r = JSONRenderer { entries: Vec::new() };
        proof {
            assert(r.entries_view() =~= Seq::<(Seq<char>, Seq<char>)>::empty());
        }
        r
    }

    /// Inserts or overwrites the entry for one repository run. Never fails.
    #[verifier::loop_isolation(false)]
    pub fn log(&mut self, out: &ExecutionResult, repo: &str) -> (r: Result<(), String>)
        requires
            old(self).wf(),
        ensures
            r is Ok,
            final(self).wf(),
            final(self).entries_view() == keyed_log(
                old(self).entries_view(),
                repo@,
                lossy_of(out.stdout@),
            ),
    {
        let ghost es = self.entries_view();
        let key = repo.to_owned();
        let val = out.stringify();
        let mut i: usize = 0;
        while i < self.entries.len()
            invariant
                0 <= i <= self.entries@.len(),
                key@ == repo@,
                es == self.entries_view(),
                *self == *old(self),
                forall|j: int| 0 <= j < i ==> (#[trigger] es[j]).0 != key@,
            decreases self.entries@.len() - i,
        {
            if self.entries[i].0.eq(&key) {
                let _ = self.entries.remove(i);
                self.entries.insert(i, (key, val));
                proof {
                    assert(es[i as int].0 == repo@);
                    let iv = choose|c: int| 0 <= c < es.len() && (#[trigger] es[c]).0 == repo@;
                    if iv != i {
                        assert(false);
                    }
                    assert(self.entries_view() =~= keyed_log(es, repo@, lossy_of(out.stdout@)));
                    assert forall|a: int, b: int|
                        0 <= a < b < self.entries_view().len() implies (
                    #[trigger] self.entries_view()[a]).0 != (
                    #[trigger] self.entries_view()[b]).0 by {
                        assert(es[a].0 == self.entries_view()[a].0 || a == i);
                        assert(es[b].0 == self.entries_view()[b].0 || b == i);
                    }
                }
                return Ok(());
            }
            i += 1;
        }
        self.entries.push((key, val));
        proof {
            assert(forall|j: int| 0 <= j < es.len() ==> (#[trigger] es[j]).0 != repo@);
            assert(self.entries_view() =~= es.push((repo@, lossy_of(out.stdout@))));
            assert(self.entries_view() =~= keyed_log(es, repo@, lossy_of(out.stdout@)));
            assert forall|a: int, b: int|
                0 <= a < b < self.entries_view().len() implies (
            #[trigger] self.entries_view()[a]).0 != (#[trigger] self.entries_view()[b]).0 by {
                if b < es.len() {
                } else {
                    assert(self.entries_view()[a].0 == es[a].0);
                }
            }
        }
        Ok(())
    }

    /// Serializes the full mapping. Takes the renderer immutably, so
    /// rendering twice with no intervening `log` returns the same text.
    pub fn render(&self) -> (r: String)
        ensures
            r@ == spec_render_keyed(self.entries_view()),
    {
        let ghost es = self.entries_view();
        let mut out = "{".to_owned();
        let mut i: usize = 0;
        while i < self.entries.len()
            invariant
                0 <= i <= self.entries@.len(),
                es == self.entries_view(),
                out@ == "{"@ + pairs_repr(es.take(i as int)),
            decreases self.entries@.len() - i,
        {
            if i > 0 {
                out.append(", ");
            }
            out.append("\"");
            out.append(self.entries[i].0.as_str());
            out.append("\": \"");
            out.append(self.entries[i].1.as_str());
            out.append("\"");
            proof {
                let taken = es.take(i + 1);
                assert(taken.drop_last() =~= es.take(i as int));
                assert(taken.last() == es[i as int]);
                if i == 0 {
                    assert(out@ =~= "{"@ + pairs_repr(taken));
                } else {
                    assert(out@ =~= "{"@ + (pairs_repr(es.take(i as int)) + ", "@ + pair_repr(
                        es[i as int].0,
                        es[i as int].1,
                    )));
                }
            }
            i += 1;
        }
        out.append("}");
        proof {
            assert(es.take(self.entries@.len() as int) =~= es);
            assert(out@ =~= spec_render_keyed(es));
        }
        out
    }
}

/// The renderer in use for one run: line-oriented text or keyed container.
pub enum Renderer {
    Stdin(StdinRenderer),
    Json(JSONRenderer),
}

/// A renderer's internal invariant.
pub open spec fn renderer_wf(r: Renderer) -> bool {
    match r {
        Renderer::Stdin(_) => true,
        Renderer::Json(j) => j.wf(),
    }
}

/// How one `log` call takes a renderer from state `r0` to state `r1`.
pub open spec fn logged(r0: Renderer, r1: Renderer, out: ExecutionResult, repo: Seq<char>) -> bool {
    match (r0, r1) {
        (Renderer::Stdin(s0), Renderer::Stdin(s1)) => s1.report() == s0.report() + line_of(
            repo,
            out.stdout@,
        ),
        (Renderer::Json(j0), Renderer::Json(j1)) => j1.entries_view() == keyed_log(
            j0.entries_view(),
            repo,
            lossy_of(out.stdout@),
        ),
        _ => false,
    }
}

/// The report text a renderer produces from its current state.
pub open spec fn spec_rendered(r: Renderer) -> Seq<char> {
    match r {
        Renderer::Stdin(s) => s.report(),
        Renderer::Json(j) => spec_render_keyed(j.entries_view()),
    }
}

impl Renderer {
    /// Records one repository run. Never fails.
    pub fn log(&mut self, out: &ExecutionResult, repo: &str) -> (r: Result<(), String>)
        requires
            renderer_wf(*old(self)),
        ensures
            r is Ok,
            renderer_wf(*final(self)),
            logged(*old(self), *final(self), *out, repo@),
    {
        match self {
            Renderer::Stdin(s) => s.log(out, repo),
            Renderer::Json(j) => j.log(out, repo),
        }
    }

    /// The final report. Takes the renderer immutably, so rendering twice
    /// with no intervening `log` returns the same text.
    pub fn render(&self) -> (r: String)
        ensures
            r@ == spec_rendered(*self),
    {
        match self {
            Renderer::Stdin(s) => s.render().to_owned(),
            Renderer::Json(j) => j.render(),
        }
    }
}

/// The empty renderer for the selected output encoding.
pub fn get_renderer(output_type: OutputType) -> (r: Renderer)
    ensures
        renderer_wf(r),
        output_type is Stdin ==> (r matches Renderer::Stdin(s) && s.report()
            == Seq::<char>::empty()),
        output_type is Json ==> (r matches Renderer::Json(j) && j.entries_view() == Seq::<
            (Seq<char>, Seq<char>),
        >::empty()),
{
    match output_type {
        OutputType::Stdin => Renderer::Stdin(StdinRenderer::new()),
        OutputType::Json => Renderer::Json(JSONRenderer::new()),
    }
}

/// A renderer with zero `log` calls renders the empty report: the line
/// renderer yields empty text, the keyed renderer the empty container.
pub proof fn lemma_render_zero_logs(r: Renderer)
    requires
        r matches Renderer::Stdin(s) ==> s.report() == Seq::<char>::empty(),
        r matches Renderer::Json(j) ==> j.entries_view() == Seq::<(Seq<char>, Seq<char>)>::empty(),
    ensures
        r is Stdin ==> spec_rendered(r) == Seq::<char>::empty(),
        r is Json ==> spec_rendered(r) == "{"@ + "}"@,
{
    match r {
        Renderer::Stdin(s) => {
            assert(spec_rendered(r) =~= Seq::<char>::empty());
        },
        Renderer::Json(j) => {
            assert(pairs_repr(j.entries_view()) =~= Seq::<char>::empty());
            assert(spec_rendered(r) =~= "{"@ + "}"@);
        },
    }
}

} // verus!
