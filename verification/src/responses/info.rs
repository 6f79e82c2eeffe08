//! Responses to commands that ask for information about the server.

use vstd::prelude::*;

use mpd_protocol::response::Frame;

use crate::protocol::{field_texts, frame_fields, into_fields};
use crate::responses::TypedResponseError;
use crate::text::{number, parse_usize, same_text};

verus! {

/// The values of all fields with the given key, in order.
pub open spec fn values_of(fields: Seq<(Seq<char>, Seq<char>)>, key: Seq<char>) -> Seq<Seq<char>>
    decreases fields.len(),
{
    if fields.len() == 0 {
        seq![]
    } else if fields.last().0 == key {
        values_of(fields.drop_last(), key).push(fields.last().1)
    } else {
        values_of(fields.drop_last(), key)
    }
}

/// The characters of a list of strings.
pub open spec fn texts(strings: Seq<String>) -> Seq<Seq<char>> {
    strings.map_values(|text: String| text@)
}

/// List all dirs with music (recursive)
#[derive(Clone, Debug, PartialEq, Eq)]
pub struct ListDirs {}

impl ListDirs {
    /// The directories that a frame lists.
    pub fn from_frame_multi(frame: Frame) -> (dirs: Result<Vec<String>, TypedResponseError>)
        ensures
            dirs matches Ok(out) && texts(out@) == values_of(
                frame_fields(frame),
                "directory"@,
            ),
    {
        Ok(ListDirs::from_fields(into_fields(frame)))
    }

    /// The directories that the fields of a frame list.
    pub fn from_fields(fields: Vec<(String, String)>) -> (out: Vec<String>)
        ensures
            texts(out@) == values_of(field_texts(fields@), "directory"@),
    {
        let ghost all = field_texts(fields@);
        let mut out: Vec<String> = Vec::with_capacity(fields.len());
        for field in it: fields
            invariant
                all == field_texts(it.seq()),
                texts(out@) == values_of(all.take(it.index() as int), "directory"@),
        {
            let ghost seen = all.take(it.index() + 1);
            assert(seen.drop_last() == all.take(it.index() as int));
            let ghost before = out@;
            let (key, value) = field;
            if same_text(key.as_str(), "directory") {
                out.push(value);
                assert(texts(out@) == texts(before).push(value@));
            }
        }
        assert(all.take(all.len() as int) == all);
        out
    }
}

/// Output from config
#[derive(Clone, Debug, PartialEq, Eq)]
pub struct Output {
    pub id: usize,
    pub name: String,
    pub plugin: String,
    pub enabled: bool,
}

/// The contents of an [`Output`].
#[verifier::ext_equal]
pub struct OutputView {
    pub id: usize,
    pub name: Seq<char>,
    pub plugin: Seq<char>,
    pub enabled: bool,
}

impl View for Output {
    type V = OutputView;

    open spec fn view(&self) -> OutputView {
        OutputView {
            id: self.id,
            name: self.name@,
            plugin: self.plugin@,
            enabled: self.enabled,
        }
    }
}

/// The contents of a list of outputs.
pub open spec fn output_views(outputs: Seq<Output>) -> Seq<OutputView> {
    outputs.map_values(|output: Output| output@)
}

/// An output whose fields are still coming in. It is in progress once its id is not empty.
pub struct OutputBuilder {
    pub id: String,
    pub name: String,
    pub plugin: String,
    pub enabled: String,
}

/// The contents of an [`OutputBuilder`].
#[verifier::ext_equal]
pub struct OutputBuilderView {
    pub id: Seq<char>,
    pub name: Seq<char>,
    pub plugin: Seq<char>,
    pub enabled: Seq<char>,
}

impl View for OutputBuilder {
    type V = OutputBuilderView;

    open spec fn view(&self) -> OutputBuilderView {
        OutputBuilderView {
            id: self.id@,
            name: self.name@,
            plugin: self.plugin@,
            enabled: self.enabled@,
        }
    }
}

impl OutputBuilderView {
    /// A builder without an output in progress.
    pub open spec fn empty() -> OutputBuilderView {
        OutputBuilderView { id: seq![], name: seq![], plugin: seq![], enabled: seq![] }
    }

    /// The builder with another id.
    pub open spec fn with_id(self, id: Seq<char>) -> OutputBuilderView {
        OutputBuilderView { id, ..self }
    }

    /// The builder after a field of the output in progress. Fields with other keys are ignored.
    pub open spec fn with_field(self, key: Seq<char>, value: Seq<char>) -> OutputBuilderView {
        if key == "outputname"@ {
            OutputBuilderView { name: value, ..self }
        } else if key == "plugin"@ {
            OutputBuilderView { plugin: value, ..self }
        } else if key == "outputenabled"@ {
            OutputBuilderView { enabled: value, ..self }
        } else {
            self
        }
    }

    /// Whether the builder holds an output: its id is a number.
    pub open spec fn is_readable(self) -> bool {
        number(self.id) is Some
    }

    /// The output that the builder holds.
    pub open spec fn output(self) -> OutputView {
        OutputView {
            id: number(self.id)->0,
            name: self.name,
            plugin: self.plugin,
            enabled: self.enabled == "1"@,
        }
    }

    /// What a field does to the builder: the builder after it and the output that it completes, or
    /// the key that was found where an output had to start.
    pub open spec fn field(self, key: Seq<char>, value: Seq<char>) -> Result<
        (OutputBuilderView, Option<OutputView>),
        Seq<char>,
    > {
        if self.id.len() == 0 {
            if key == "outputid"@ {
                Ok((self.with_id(value), None))
            } else {
                Err(key)
            }
        } else if key == "outputid"@ {
            Ok((OutputBuilderView::empty().with_id(value), Some(self.output())))
        } else {
            Ok((self.with_field(key, value), None))
        }
    }

    /// Whether a field with the given key can be taken in: if it completes an output, that output
    /// has to be readable.
    pub open spec fn can_take(self, key: Seq<char>) -> bool {
        self.id.len() > 0 && key == "outputid"@ ==> self.is_readable()
    }
}

/// Whether `error` says that a field with the key `found` stands where an output had to start.
pub open spec fn is_missing_start(error: TypedResponseError, found: Seq<char>) -> bool {
    error.is_unexpected_field("outputid"@, found)
}

impl Default for OutputBuilder {
    fn default() -> (builder: OutputBuilder)
        ensures
            builder@ == OutputBuilderView::empty(),
    {
        OutputBuilder {
            id: String::new(),
            name: String::new(),
            plugin: String::new(),
            enabled: String::new(),
        }
    }
}

impl OutputBuilder {
    /// Handle a field from an output list.
    ///
    /// If this returns `Ok(Some(_))`, an output was completed and another one started.
    pub fn field(&mut self, key: &str, value: String) -> (completed: Result<
        Option<Output>,
        TypedResponseError,
    >)
        requires
            old(self)@.can_take(key@),
        ensures
            match old(self)@.field(key@, value@) {
                Ok((next, Some(output))) => {
                    &&& final(self)@ == next
                    &&& completed matches Ok(Some(o)) && o@ == output
                },
                Ok((next, None)) => {
                    &&& final(self)@ == next
                    &&& completed matches Ok(None)
                },
                Err(found) => {
                    &&& *final(self) == *old(self)
                    &&& completed matches Err(e) && is_missing_start(e, found)
                },
            },
    {
        if self.id.as_str().is_empty() {
            // No output is currently in progress
            match self.handle_start_field(key, value) {
                Ok(()) => Ok(None),
                Err(e) => Err(e),
            }
        } else {
            // Currently parsing an output
            self.handle_field(key, value)
        }
    }

    /// Handle a field that is expected to start a new output.
    pub fn handle_start_field(&mut self, key: &str, value: String) -> (started: Result<
        (),
        TypedResponseError,
    >)
        ensures
            if key@ == "outputid"@ {
                &&& started is Ok
                &&& final(self)@ == old(self)@.with_id(value@)
            } else {
                &&& started matches Err(e) && is_missing_start(e, key@)
                &&& *final(self) == *old(self)
            },
    {
        // An `outputid` field starts a new output
        if same_text(key, "outputid") {
            self.id = value;
            Ok(())
        } else {
            Err(TypedResponseError::unexpected_field("outputid", key))
        }
    }

    /// Handle a field that may be part of an output or may start a new one.
    pub fn handle_field(&mut self, key: &str, value: String) -> (completed: Result<
        Option<Output>,
        TypedResponseError,
    >)
        requires
            key@ == "outputid"@ ==> old(self)@.is_readable(),
        ensures
            if key@ == "outputid"@ {
                &&& completed matches Ok(Some(o)) && o@ == old(self)@.output()
                &&& final(self)@ == OutputBuilderView::empty().with_id(value@)
            } else {
                &&& completed matches Ok(None)
                &&& final(self)@ == old(self)@.with_field(key@, value@)
            },
    {
        // If this field starts a new output, the current one is done
        if same_text(key, "outputid") {
            // Reset the builder and convert the existing data into an output
            let mut current = OutputBuilder::default();
            std::mem::swap(self, &mut current);
            let output = current.into_output();

            // Handle the current field
            match self.handle_start_field(key, value) {
                Ok(()) => (),
                Err(e) => return Err(e),
            }

            // Return the complete output
            return Ok(Some(output));
        }
        // The field is a component of an output
        if same_text(key, "outputname") {
            self.name = value;
        } else if same_text(key, "plugin") {
            self.plugin = value;
        } else if same_text(key, "outputenabled") {
            self.enabled = value;
        }
        Ok(None)
    }

    /// Finish the building process. This returns the final output, if there is one.
    pub fn finish(self) -> (last: Option<Output>)
        requires
            self@.id.len() > 0 ==> self@.is_readable(),
        ensures
            if self@.id.len() == 0 {
                last is None
            } else {
                last matches Some(o) && o@ == self@.output()
            },
    {
        if self.id.as_str().is_empty() {
            None
        } else {
            Some(self.into_output())
        }
    }

    /// The output that the builder holds.
    pub fn into_output(self) -> (output: Output)
        requires
            self@.is_readable(),
        ensures
            output@ == self@.output(),
    {
        let enabled = same_text(self.enabled.as_str(), "1");
        let id: usize = parse_usize(self.id.as_str()).unwrap();
        Output { id, name: self.name, plugin: self.plugin, enabled }
    }
}

/// What a list of fields amounts to: the output that is in progress at its end and the outputs that
/// were completed before, or the key that was found where an output had to start.
pub open spec fn scan(fields: Seq<(Seq<char>, Seq<char>)>) -> Result<
    (OutputBuilderView, Seq<OutputView>),
    Seq<char>,
>
    decreases fields.len(),
{
    if fields.len() == 0 {
        Ok((OutputBuilderView::empty(), seq![]))
    } else {
        match scan(fields.drop_last()) {
            Ok((builder, outputs)) => match builder.field(fields.last().0, fields.last().1) {
                Ok((next, Some(output))) => Ok((next, outputs.push(output))),
                Ok((next, None)) => Ok((next, outputs)),
                Err(found) => Err(found),
            },
            Err(found) => Err(found),
        }
    }
}

/// Whether the field at `i` completes no output or a readable one.
pub open spec fn is_readable_at(fields: Seq<(Seq<char>, Seq<char>)>, i: int) -> bool {
    scan(fields.take(i)) matches Ok((builder, _)) ==> builder.can_take(fields[i].0)
}

/// Whether every output that the fields complete has a number for its id.
pub open spec fn is_readable(fields: Seq<(Seq<char>, Seq<char>)>) -> bool {
    forall|i: int| 0 <= i < fields.len() ==> #[trigger] is_readable_at(fields, i)
}

/// Whether `outputs` is what the given fields list: every output that another one follows. An
/// output that ends with the last field is not in the list.
pub open spec fn is_output_list(
    fields: Seq<(Seq<char>, Seq<char>)>,
    outputs: Result<Vec<Output>, TypedResponseError>,
) -> bool {
    match scan(fields) {
        Ok((_, listed)) => outputs matches Ok(out) && output_views(out@) == listed,
        Err(found) => outputs matches Err(e) && is_missing_start(e, found),
    }
}

impl Output {
    /// The outputs that a frame lists, each completed by the start of the next one.
    pub fn from_frame_multi(frame: Frame) -> (outputs: Result<Vec<Output>, TypedResponseError>)
        requires
            is_readable(frame_fields(frame)),
        ensures
            is_output_list(frame_fields(frame), outputs),
    {
        Output::from_fields(into_fields(frame))
    }

    /// The outputs that a frame lists, as [`Output::from_frame_multi`] gives them, or `None` if the
    /// id of one of them is not a number.
    pub fn try_from_frame_multi(frame: Frame) -> (outputs: Option<
        Result<Vec<Output>, TypedResponseError>,
    >)
        ensures
            match outputs {
                Some(listed) => is_readable(frame_fields(frame)) && is_output_list(
                    frame_fields(frame),
                    listed,
                ),
                None => !is_readable(frame_fields(frame)),
            },
    {
        let fields = into_fields(frame);
        if Output::ids_are_numbers(&fields) {
            Some(Output::from_fields(fields))
        } else {
            None
        }
    }

    /// The outputs that the fields of a frame list, each completed by the start of the next one.
    pub fn from_fields(fields: Vec<(String, String)>) -> (outputs: Result<
        Vec<Output>,
        TypedResponseError,
    >)
        requires
            is_readable(field_texts(fields@)),
        ensures
            is_output_list(field_texts(fields@), outputs),
    {
        let ghost all = field_texts(fields@);
        let mut out: Vec<Output> = Vec::with_capacity(fields.len());
        let mut builder = OutputBuilder::default();
        assert(output_views(out@) == Seq::<OutputView>::empty());
        for field in it: fields
            invariant
                all == field_texts(it.seq()),
                is_readable(all),
                scan(all.take(it.index() as int)) == Ok::<
                    (OutputBuilderView, Seq<OutputView>),
                    Seq<char>,
                >((builder@, output_views(out@))),
        {
            let ghost n = it.index() as int;
            assert(is_readable_at(all, n));
            assert(all.take(n + 1).drop_last() == all.take(n));
            let ghost before = out@;
            let (key, value) = field;
            match builder.field(key.as_str(), value) {
                Ok(Some(output)) => {
                    out.push(output);
                    assert(output_views(out@) == output_views(before).push(output@));
                },
                Ok(None) => (),
                Err(e) => {
                    proof {
                        lemma_scan_stays_failed(all, n + 1);
                    }
                    return Err(e);
                },
            }
        }
        assert(all.take(all.len() as int) == all);
        Ok(out)
    }

    /// Whether every output that the fields complete has a number for its id.
    pub fn ids_are_numbers(fields: &Vec<(String, String)>) -> (readable: bool)
        ensures
            readable == is_readable(field_texts(fields@)),
    {
        let ghost all = field_texts(fields@);
        let mut id: &str = "";
        proof {
            reveal_strlit("");
        }
        let mut i: usize = 0;
        while i < fields.len()
            invariant
                all == field_texts(fields@),
                i <= fields@.len(),
                scan(all.take(i as int)) matches Ok((builder, _)) && builder.id == id@,
                forall|j: int| 0 <= j < i ==> #[trigger] is_readable_at(all, j),
            decreases fields.len() - i,
        {
            let (key, value) = &fields[i];
            assert(all[i as int] == (key@, value@));
            assert(all.take(i + 1).drop_last() == all.take(i as int));
            if same_text(key.as_str(), "outputid") {
                if !id.is_empty() && parse_usize(id).is_none() {
                    assert(!is_readable_at(all, i as int));
                    return false;
                }
                id = value.as_str();
            } else if id.is_empty() {
                proof {
                    assert forall|j: int| 0 <= j < all.len() implies #[trigger] is_readable_at(
                        all,
                        j,
                    ) by {
                        if j > i {
                            assert(all.take(j).take(i + 1) == all.take(i + 1));
                            lemma_scan_stays_failed(all.take(j), i + 1);
                        }
                    }
                }
                return true;
            }
            i += 1;
        }
        true
    }
}

/// Once a field was found where an output had to start, no further field changes that.
proof fn lemma_scan_stays_failed(fields: Seq<(Seq<char>, Seq<char>)>, n: int)
    requires
        0 <= n <= fields.len(),
        scan(fields.take(n)) is Err,
    ensures
        scan(fields) == scan(fields.take(n)),
    decreases fields.len(),
{
    if n < fields.len() {
        assert(fields.drop_last().take(n) == fields.take(n));
        lemma_scan_stays_failed(fields.drop_last(), n);
    } else {
        assert(fields.take(n) == fields);
    }
}

/// The keys of the fields of an output are different from each other.
proof fn lemma_keys_differ()
    ensures
        "outputname"@ != "plugin"@,
        "outputname"@ != "outputenabled"@,
        "plugin"@ != "outputenabled"@,
        "outputid"@ != "outputname"@,
        "outputid"@ != "plugin"@,
        "outputid"@ != "outputenabled"@,
{
    reveal_strlit("outputid");
    reveal_strlit("outputname");
    reveal_strlit("plugin");
    reveal_strlit("outputenabled");
    assert("outputid"@.len() == 8);
    assert("outputname"@.len() == 10);
    assert("plugin"@.len() == 6);
    assert("outputenabled"@.len() == 13);
}

/// The value of the last field with the given key, or no characters if there is none.
pub open spec fn last_value(fields: Seq<(Seq<char>, Seq<char>)>, key: Seq<char>) -> Seq<char>
    decreases fields.len(),
{
    if fields.len() == 0 {
        seq![]
    } else if fields.last().0 == key {
        fields.last().1
    } else {
        last_value(fields.drop_last(), key)
    }
}

/// Whether the fields are those of one output: an `outputid` with a number, then any other fields.
pub open spec fn is_block(fields: Seq<(Seq<char>, Seq<char>)>) -> bool {
    &&& fields.len() > 0
    &&& fields[0].0 == "outputid"@
    &&& number(fields[0].1) is Some
    &&& forall|i: int| 0 < i < fields.len() ==> (#[trigger] fields[i]).0 != "outputid"@
}

/// The contents of the output that the fields describe.
pub open spec fn block_contents(fields: Seq<(Seq<char>, Seq<char>)>) -> OutputBuilderView {
    OutputBuilderView {
        id: fields[0].1,
        name: last_value(fields, "outputname"@),
        plugin: last_value(fields, "plugin"@),
        enabled: last_value(fields, "outputenabled"@),
    }
}

/// The fields of several outputs, one after the other.
pub open spec fn concat(blocks: Seq<Seq<(Seq<char>, Seq<char>)>>) -> Seq<(Seq<char>, Seq<char>)>
    decreases blocks.len(),
{
    if blocks.len() == 0 {
        seq![]
    } else {
        concat(blocks.drop_last()) + blocks.last()
    }
}

/// A frame that describes one output after the other gives every output but the last one, in order.
/// The last one is what the builder is left with.
pub proof fn law_every_output_but_the_last_is_listed(blocks: Seq<Seq<(Seq<char>, Seq<char>)>>)
    requires
        blocks.len() > 0,
        forall|i: int| 0 <= i < blocks.len() ==> is_block(#[trigger] blocks[i]),
    ensures
        is_readable(concat(blocks)),
        scan(concat(blocks)) == Ok::<(OutputBuilderView, Seq<OutputView>), Seq<char>>(
            (
                block_contents(blocks.last()),
                blocks.drop_last().map_values(
                    |block: Seq<(Seq<char>, Seq<char>)>| block_contents(block).output(),
                ),
            ),
        ),
    decreases blocks.len(),
{
    let front = blocks.drop_last();
    assert(is_block(blocks.last()));
    if front.len() > 0 {
        assert forall|i: int| 0 <= i < front.len() implies is_block(#[trigger] front[i]) by {
            assert(front[i] == blocks[i]);
        }
        law_every_output_but_the_last_is_listed(front);
        lemma_scan_block(concat(front), blocks.last());
        lemma_readable_block(concat(front), blocks.last());
        let as_output = |block: Seq<(Seq<char>, Seq<char>)>| block_contents(block).output();
        assert(front.map_values(as_output) == front.drop_last().map_values(as_output).push(
            as_output(front.last()),
        ));
    } else {
        lemma_scan_block(concat(front), blocks.last());
        lemma_readable_block(concat(front), blocks.last());
        assert(front.map_values(
            |block: Seq<(Seq<char>, Seq<char>)>| block_contents(block).output(),
        ) == Seq::<OutputView>::empty());
    }
}

/// The fields of one output replace whatever was in progress.
proof fn lemma_scan_block(
    before: Seq<(Seq<char>, Seq<char>)>,
    block: Seq<(Seq<char>, Seq<char>)>,
)
    requires
        scan(before) matches Ok((builder, _)) && (builder.id.len() == 0 ==> builder
            == OutputBuilderView::empty()),
        is_block(block),
    ensures
        scan(before) matches Ok((builder, outputs)) && scan(before + block) == Ok::<
            (OutputBuilderView, Seq<OutputView>),
            Seq<char>,
        >(
            (
                block_contents(block),
                if builder.id.len() == 0 {
                    outputs
                } else {
                    outputs.push(builder.output())
                },
            ),
        ),
    decreases block.len(),
{
    lemma_keys_differ();
    let front = block.drop_last();
    assert((before + block).drop_last() == before + front);
    if front.len() == 0 {
        assert(before + front == before);
        reveal_with_fuel(last_value, 2);
        assert(block_contents(block) == OutputBuilderView::empty().with_id(block[0].1));
    } else {
        lemma_scan_block(before, front);
        assert(block[block.len() - 1].0 != "outputid"@);
        assert(block_contents(block) == block_contents(front).with_field(
            block.last().0,
            block.last().1,
        ));
    }
}

/// The fields of one output can be taken in whenever the output in progress is readable.
proof fn lemma_readable_block(
    before: Seq<(Seq<char>, Seq<char>)>,
    block: Seq<(Seq<char>, Seq<char>)>,
)
    requires
        scan(before) matches Ok((builder, _)) && builder.can_take("outputid"@),
        is_readable(before),
        is_block(block),
    ensures
        is_readable(before + block),
{
    let all = before + block;
    assert forall|i: int| 0 <= i < all.len() implies #[trigger] is_readable_at(all, i) by {
        if i < before.len() {
            assert(is_readable_at(before, i));
            assert(all.take(i) == before.take(i));
        } else if i == before.len() {
            assert(all.take(i) == before);
        } else {
            assert(all[i] == block[i - before.len()]);
        }
    }
}

/// Whether the positions are those of some fields, in order.
pub open spec fn is_ascending(at: Seq<int>) -> bool {
    forall|i: int, j: int| 0 <= i < j < at.len() ==> #[trigger] at[i] < #[trigger] at[j]
}

/// The positions of the fields with the given key, in order, together with their values.
proof fn lemma_values_of(fields: Seq<(Seq<char>, Seq<char>)>, key: Seq<char>) -> (at: Seq<int>)
    ensures
        at.len() == values_of(fields, key).len(),
        is_ascending(at),
        forall|i: int|
            0 <= i < at.len() ==> 0 <= #[trigger] at[i] < fields.len() && fields[at[i]] == (
                key,
                values_of(fields, key)[i],
            ),
        forall|p: int|
            0 <= p < fields.len() && (#[trigger] fields[p]).0 == key ==> at.contains(p),
    decreases fields.len(),
{
    if fields.len() == 0 {
        seq![]
    } else {
        let front = fields.drop_last();
        let before = lemma_values_of(front, key);
        let n = front.len() as int;
        let at = if fields.last().0 == key {
            before.push(n)
        } else {
            before
        };
        assert forall|i: int| 0 <= i < at.len() implies 0 <= #[trigger] at[i] < fields.len()
            && fields[at[i]] == (key, values_of(fields, key)[i]) by {
            if i < before.len() {
                assert(at[i] == before[i]);
                assert(fields[at[i]] == front[before[i]]);
            }
        }
        assert forall|i: int, j: int| 0 <= i < j < at.len() implies #[trigger] at[i]
            < #[trigger] at[j] by {
            assert(at[i] == before[i]);
            if j < before.len() {
                assert(at[j] == before[j]);
            }
        }
        assert forall|p: int| 0 <= p < fields.len() && (#[trigger] fields[p]).0 == key implies
            at.contains(p) by {
            if p < n {
                assert(front[p].0 == key);
                let i = choose|i: int| 0 <= i < before.len() && before[i] == p;
                assert(at[i] == p);
            } else {
                assert(at[before.len() as int] == p);
            }
        }
        at
    }
}

/// The directories of a frame are the values of its `directory` fields: every one of them, in order
/// and unchanged, and nothing else.
pub proof fn law_every_directory_is_listed(
    frame: Frame,
    dirs: Result<Vec<String>, TypedResponseError>,
)
    requires
        call_ensures(ListDirs::from_frame_multi, (frame,), dirs),
    ensures
        dirs matches Ok(out) && exists|at: Seq<int>| #[trigger]
            is_ascending(at) && at.len() == out@.len() && (forall|i: int|
                0 <= i < at.len() ==> 0 <= #[trigger] at[i] < frame_fields(frame).len()
                    && frame_fields(frame)[at[i]] == ("directory"@, out@[i]@)) && (forall|p: int|
                0 <= p < frame_fields(frame).len() && (#[trigger] frame_fields(frame)[p]).0
                    == "directory"@ ==> at.contains(p)),
{
    let at = lemma_values_of(frame_fields(frame), "directory"@);
    let out = dirs->Ok_0;
    assert(texts(out@).len() == out@.len());
    assert forall|i: int| 0 <= i < at.len() implies 0 <= #[trigger] at[i] < frame_fields(
        frame,
    ).len() && frame_fields(frame)[at[i]] == ("directory"@, out@[i]@) by {
        assert(texts(out@)[i] == out@[i]@);
    }
}

/// The directories of a list of fields are the values of the `directory` fields: every one of them,
/// in order and unchanged, and nothing else.
pub proof fn law_every_directory_field_is_taken(fields: Vec<(String, String)>, out: Vec<String>)
    requires
        call_ensures(ListDirs::from_fields, (fields,), out),
    ensures
        exists|at: Seq<int>| #[trigger]
            is_ascending(at) && at.len() == out@.len() && (forall|i: int|
                0 <= i < at.len() ==> 0 <= #[trigger] at[i] < fields@.len() && fields@[at[i]].0@
                    == "directory"@ && fields@[at[i]].1@ == out@[i]@) && (forall|p: int|
                0 <= p < fields@.len() && (#[trigger] fields@[p]).0@ == "directory"@
                    ==> at.contains(p)),
{
    let all = field_texts(fields@);
    let at = lemma_values_of(all, "directory"@);
    assert(texts(out@).len() == out@.len());
    assert forall|i: int| 0 <= i < at.len() implies 0 <= #[trigger] at[i] < fields@.len()
        && fields@[at[i]].0@ == "directory"@ && fields@[at[i]].1@ == out@[i]@ by {
        assert(texts(out@)[i] == out@[i]@);
        assert(all[at[i]] == (fields@[at[i]].0@, fields@[at[i]].1@));
    }
    assert forall|p: int|
        0 <= p < fields@.len() && (#[trigger] fields@[p]).0@ == "directory"@ implies at.contains(
        p,
    ) by {
        assert(all[p].0 == "directory"@);
    }
}

/// Whether an output starts at position `p`.
pub open spec fn starts_at(fields: Seq<(Seq<char>, Seq<char>)>, p: int) -> bool {
    0 <= p < fields.len() && fields[p].0 == "outputid"@
}

/// Whether the field at `j` belongs to the output that starts at `p`: no other one starts in between.
pub open spec fn is_part(fields: Seq<(Seq<char>, Seq<char>)>, p: int, j: int) -> bool {
    0 <= p < j < fields.len() && forall|k: int| p < k <= j ==> !#[trigger] starts_at(fields, k)
}

/// Whether the field at `j` is the last one with the given key in the output that starts at `p`.
pub open spec fn is_last_part(
    fields: Seq<(Seq<char>, Seq<char>)>,
    p: int,
    key: Seq<char>,
    j: int,
) -> bool {
    is_part(fields, p, j) && fields[j].0 == key && forall|k: int|
        j < k && #[trigger] is_part(fields, p, k) ==> fields[k].0 != key
}

/// Whether the output that starts at `p` has the given value for a key: that of the last field with
/// the key, or no characters if there is none.
pub open spec fn has_value(
    fields: Seq<(Seq<char>, Seq<char>)>,
    p: int,
    key: Seq<char>,
    value: Seq<char>,
) -> bool {
    ||| exists|j: int| #[trigger] is_last_part(fields, p, key, j) && fields[j].1 == value
    ||| value.len() == 0 && forall|j: int| #[trigger] is_part(fields, p, j) ==> fields[j].0 != key
}

/// Whether `output` is the output that starts at `p`.
pub open spec fn is_output_at(
    fields: Seq<(Seq<char>, Seq<char>)>,
    p: int,
    output: Output,
) -> bool {
    &&& number(fields[p].1) == Some(output.id)
    &&& has_value(fields, p, "outputname"@, output.name@)
    &&& has_value(fields, p, "plugin"@, output.plugin@)
    &&& exists|enabled: Seq<char>| #[trigger]
        has_value(fields, p, "outputenabled"@, enabled) && (output.enabled <==> enabled == "1"@)
}

/// Whether an output with an id starts at `p` and another one follows it.
pub open spec fn is_followed(fields: Seq<(Seq<char>, Seq<char>)>, p: int) -> bool {
    starts_at(fields, p) && fields[p].1.len() > 0 && exists|q: int|
        p < q && #[trigger] starts_at(fields, q)
}

/// Whether the field at `p` stands where an output had to start: at the beginning, or after an id
/// without characters.
pub open spec fn is_misplaced(fields: Seq<(Seq<char>, Seq<char>)>, p: int) -> bool {
    &&& 0 <= p < fields.len()
    &&& !starts_at(fields, p)
    &&& p == 0 || (starts_at(fields, p - 1) && fields[p - 1].1.len() == 0)
}

/// Whether the builder holds what the output that starts at `p` has for values.
spec fn holds(fields: Seq<(Seq<char>, Seq<char>)>, p: int, builder: OutputBuilderView) -> bool {
    &&& starts_at(fields, p)
    &&& builder.id == fields[p].1
    &&& has_value(fields, p, "outputname"@, builder.name)
    &&& has_value(fields, p, "plugin"@, builder.plugin)
    &&& has_value(fields, p, "outputenabled"@, builder.enabled)
}

/// Whether the output was completed from a builder that held the values of the output at `p`.
spec fn completes(fields: Seq<(Seq<char>, Seq<char>)>, p: int, output: OutputView) -> bool {
    exists|builder: OutputBuilderView| #[trigger]
        holds(fields, p, builder) && output == builder.output()
}

/// One more field changes the values of an output only if it belongs to it.
proof fn lemma_value_stays(
    fields: Seq<(Seq<char>, Seq<char>)>,
    p: int,
    key: Seq<char>,
    value: Seq<char>,
)
    requires
        fields.len() > 0,
        has_value(fields.drop_last(), p, key, value),
        is_part(fields, p, fields.len() - 1) ==> fields.last().0 != key,
    ensures
        has_value(fields, p, key, value),
{
    let front = fields.drop_last();
    let n = front.len() as int;
    assert forall|k: int| 0 <= k < n implies starts_at(front, k) == #[trigger] starts_at(fields, k) by {}
    assert forall|k: int| k < n && #[trigger] is_part(fields, p, k) implies is_part(front, p, k) by {
        assert forall|m: int| p < m <= k implies !#[trigger] starts_at(front, m) by {
            assert(!starts_at(fields, m));
        }
    }
    assert forall|k: int| #[trigger] is_part(front, p, k) implies is_part(fields, p, k) by {
        assert forall|m: int| p < m <= k implies !#[trigger] starts_at(fields, m) by {
            assert(!starts_at(front, m));
        }
    }
    if exists|j: int| #[trigger] is_last_part(front, p, key, j) && front[j].1 == value {
        let j = choose|j: int| #[trigger] is_last_part(front, p, key, j) && front[j].1 == value;
        assert forall|k: int| j < k && #[trigger] is_part(fields, p, k) implies fields[k].0 != key by {
            if k < n {
                assert(is_part(front, p, k));
            }
        }
        assert(is_part(front, p, j));
        assert(is_last_part(fields, p, key, j));
    } else {
        assert forall|j: int| #[trigger] is_part(fields, p, j) implies fields[j].0 != key by {
            if j < n {
                assert(is_part(front, p, j));
            }
        }
    }
}

/// One more field that belongs to an output decides its value.
proof fn lemma_value_is_set(fields: Seq<(Seq<char>, Seq<char>)>, p: int)
    requires
        is_part(fields, p, fields.len() - 1),
    ensures
        has_value(fields, p, fields.last().0, fields.last().1),
{
    assert(is_last_part(fields, p, fields.last().0, fields.len() - 1));
}

/// What scanning the fields has done, by the positions of the outputs: where the output in progress
/// starts, or -1 if there is none, and where the completed ones start.
proof fn lemma_scan_by_position(fields: Seq<(Seq<char>, Seq<char>)>) -> (found: (int, Seq<int>))
    requires
        forall|p: int| !#[trigger] is_misplaced(fields, p),
    ensures
        scan(fields) matches Ok((builder, outputs)) && {
            let (last, at) = found;
            &&& last == -1 ==> fields.len() == 0 && builder == OutputBuilderView::empty()
            &&& last != -1 ==> holds(fields, last, builder)
            &&& forall|q: int| last < q ==> !#[trigger] starts_at(fields, q)
            &&& at.len() == outputs.len()
            &&& is_ascending(at)
            &&& forall|i: int|
                0 <= i < at.len() ==> is_followed(fields, #[trigger] at[i]) && completes(
                    fields,
                    at[i],
                    outputs[i],
                )
            &&& forall|p: int| #[trigger] is_followed(fields, p) ==> at.contains(p)
        },
    decreases fields.len(),
{
    if fields.len() == 0 {
        (-1, seq![])
    } else {
        lemma_keys_differ();
        let front = fields.drop_last();
        let n = front.len() as int;
        let (key, value) = fields.last();
        assert(fields[n] == (key, value));
        assert forall|k: int| k < n implies starts_at(front, k) == #[trigger] starts_at(fields, k) by {}
        assert forall|p: int| !#[trigger] is_misplaced(front, p) by {
            assert(!is_misplaced(fields, p));
        }
        let (last, before) = lemma_scan_by_position(front);
        let (builder, outputs) = scan(front)->Ok_0;
        assert(!is_misplaced(fields, n));
        if last != -1 && builder.id.len() == 0 {
            // Nothing but another id comes after an id without characters
            if last < n - 1 {
                assert(!starts_at(front, last + 1));
                assert(is_misplaced(fields, last + 1));
            }
            assert forall|j: int| !#[trigger] is_part(front, last, j) by {}
            assert(builder.name.len() == 0);
            assert(builder =~= OutputBuilderView::empty());
        }
        let at = if key == "outputid"@ && builder.id.len() > 0 {
            before.push(last)
        } else {
            before
        };
        let next_last = if key == "outputid"@ {
            n
        } else {
            last
        };
        let (next, listed) = scan(fields)->Ok_0;

        // The output in progress
        if key == "outputid"@ {
            assert(starts_at(fields, n));
            assert forall|j: int| !#[trigger] is_part(fields, n, j) by {}
            assert(next == OutputBuilderView::empty().with_id(value));
            assert(holds(fields, n, next));
        } else {
            assert(last != -1 && builder.id.len() > 0);
            assert(is_part(fields, last, n)) by {
                assert forall|k: int| last < k <= n implies !#[trigger] starts_at(fields, k) by {
                    if k < n {
                        assert(!starts_at(front, k));
                    }
                }
            }
            lemma_value_is_set(fields, last);
            if key != "outputname"@ {
                lemma_value_stays(fields, last, "outputname"@, builder.name);
            }
            if key != "plugin"@ {
                lemma_value_stays(fields, last, "plugin"@, builder.plugin);
            }
            if key != "outputenabled"@ {
                lemma_value_stays(fields, last, "outputenabled"@, builder.enabled);
            }
            assert(holds(fields, last, next));
        }
        assert forall|q: int| next_last < q implies !#[trigger] starts_at(fields, q) by {
            if q < n {
                assert(!starts_at(front, q));
            }
        }

        // The completed outputs
        assert forall|i: int| 0 <= i < before.len() implies #[trigger] before[i] < last && completes(
            fields,
            before[i],
            outputs[i],
        ) && is_followed(fields, before[i]) by {
            let p = before[i];
            assert(is_followed(front, p) && completes(front, p, outputs[i]));
            let q = choose|q: int| p < q && #[trigger] starts_at(front, q);
            assert(starts_at(fields, q));
            assert(!is_part(fields, p, n));
            let from = choose|from: OutputBuilderView| #[trigger]
                holds(front, p, from) && outputs[i] == from.output();
            lemma_value_stays(fields, p, "outputname"@, from.name);
            lemma_value_stays(fields, p, "plugin"@, from.plugin);
            lemma_value_stays(fields, p, "outputenabled"@, from.enabled);
            assert(holds(fields, p, from));
        }
        if key == "outputid"@ && builder.id.len() > 0 {
            assert(starts_at(fields, n));
            assert(!is_part(fields, last, n));
            lemma_value_stays(fields, last, "outputname"@, builder.name);
            lemma_value_stays(fields, last, "plugin"@, builder.plugin);
            lemma_value_stays(fields, last, "outputenabled"@, builder.enabled);
            assert(holds(fields, last, builder));
            assert(is_followed(fields, last));
        }
        assert forall|i: int| 0 <= i < at.len() implies is_followed(fields, #[trigger] at[i])
            && completes(fields, at[i], listed[i]) by {
            if i < before.len() {
                assert(at[i] == before[i]);
            }
        }
        assert forall|i: int, j: int| 0 <= i < j < at.len() implies #[trigger] at[i]
            < #[trigger] at[j] by {
            assert(at[i] == before[i]);
            if j < before.len() {
                assert(at[j] == before[j]);
            }
        }
        assert forall|p: int| #[trigger] is_followed(fields, p) implies at.contains(p) by {
            let q = choose|q: int| p < q && #[trigger] starts_at(fields, q);
            assert(starts_at(front, p));
            if q < n {
                assert(starts_at(front, q));
                assert(is_followed(front, p));
                let i = choose|i: int| 0 <= i < before.len() && before[i] == p;
                assert(at[i] == p);
            } else if p < last {
                assert(starts_at(front, last));
                assert(is_followed(front, p));
                let i = choose|i: int| 0 <= i < before.len() && before[i] == p;
                assert(at[i] == p);
            } else {
                assert(p == last);
                assert(at[before.len() as int] == p);
            }
        }
        (next_last, at)
    }
}

/// Whether `out` lists the outputs that others follow: every one of them, in order and with the values
/// that its fields have, and nothing else.
pub open spec fn lists_followed(fields: Seq<(Seq<char>, Seq<char>)>, out: Seq<Output>) -> bool {
    exists|at: Seq<int>| #[trigger]
        is_ascending(at) && at.len() == out.len() && (forall|i: int|
            0 <= i < at.len() ==> is_followed(fields, #[trigger] at[i]) && is_output_at(
                fields,
                at[i],
                out[i],
            )) && (forall|p: int| #[trigger] is_followed(fields, p) ==> at.contains(p))
}

/// Scanning gives the outputs that others follow.
proof fn lemma_output_list(
    fields: Seq<(Seq<char>, Seq<char>)>,
    outputs: Result<Vec<Output>, TypedResponseError>,
)
    requires
        is_output_list(fields, outputs),
        forall|p: int| !#[trigger] is_misplaced(fields, p),
        forall|p: int| #[trigger] is_followed(fields, p) ==> number(fields[p].1) is Some,
    ensures
        outputs matches Ok(out) && lists_followed(fields, out@),
{
    let (_, at) = lemma_scan_by_position(fields);
    let listed = scan(fields)->Ok_0.1;
    let out = outputs->Ok_0@;
    assert(output_views(out).len() == out.len());
    assert forall|i: int| 0 <= i < at.len() implies is_followed(fields, #[trigger] at[i])
        && is_output_at(fields, at[i], out[i]) by {
        assert(output_views(out)[i] == out[i]@);
        let from = choose|from: OutputBuilderView| #[trigger]
            holds(fields, at[i], from) && listed[i] == from.output();
        assert(has_value(fields, at[i], "outputenabled"@, from.enabled));
    }
}

/// The first field that stands where an output had to start is what scanning fails with.
proof fn lemma_scan_fails(fields: Seq<(Seq<char>, Seq<char>)>, e: int)
    requires
        is_misplaced(fields, e),
        forall|p: int| 0 <= p < e ==> !#[trigger] is_misplaced(fields, p),
    ensures
        scan(fields) == Err::<(OutputBuilderView, Seq<OutputView>), Seq<char>>(fields[e].0),
        scan(fields.take(e)) is Ok,
{
    let before = fields.take(e);
    lemma_beginning(fields, e);
    assert forall|p: int| !#[trigger] is_misplaced(before, p) by {
        if 0 <= p < e {
            assert(!is_misplaced(fields, p));
        }
    }
    let (last, _) = lemma_scan_by_position(before);
    if e > 0 {
        assert(starts_at(before, e - 1));
        assert(last == e - 1);
    }
    let upto = fields.take(e + 1);
    assert(upto.drop_last() == before);
    assert(upto.last() == fields[e]);
    lemma_scan_stays_failed(fields, e + 1);
}

/// What starts and what is misplaced at the beginning of the fields does not depend on the rest.
proof fn lemma_beginning(fields: Seq<(Seq<char>, Seq<char>)>, n: int)
    requires
        0 <= n <= fields.len(),
    ensures
        forall|p: int| p < n ==> #[trigger] starts_at(fields.take(n), p) == starts_at(fields, p),
        forall|p: int|
            p < n ==> #[trigger] is_misplaced(fields.take(n), p) == is_misplaced(fields, p),
{
    assert forall|p: int| p < n implies #[trigger] starts_at(fields.take(n), p) == starts_at(
        fields,
        p,
    ) by {}
    assert forall|p: int| p < n implies #[trigger] is_misplaced(fields.take(n), p) == is_misplaced(
        fields,
        p,
    ) by {
        assert(starts_at(fields.take(n), p - 1) == starts_at(fields, p - 1));
    }
}

/// The first misplaced field, if there is one among the first `n`.
proof fn lemma_first_misplaced(fields: Seq<(Seq<char>, Seq<char>)>, n: int) -> (e: int)
    requires
        exists|p: int| 0 <= p < n && #[trigger] is_misplaced(fields, p),
    ensures
        0 <= e < n,
        is_misplaced(fields, e),
        forall|p: int| 0 <= p < e ==> !#[trigger] is_misplaced(fields, p),
    decreases n,
{
    if exists|p: int| 0 <= p < n - 1 && #[trigger] is_misplaced(fields, p) {
        lemma_first_misplaced(fields, n - 1)
    } else {
        n - 1
    }
}

/// The next output that starts after position `p` and not after `q`.
proof fn lemma_next_start(fields: Seq<(Seq<char>, Seq<char>)>, p: int, q: int) -> (next: int)
    requires
        p < q,
        starts_at(fields, q),
    ensures
        p < next <= q,
        starts_at(fields, next),
        forall|k: int| p < k < next ==> !#[trigger] starts_at(fields, k),
    decreases q - p,
{
    if exists|k: int| p < k < q && #[trigger] starts_at(fields, k) {
        let k = choose|k: int| p < k < q && #[trigger] starts_at(fields, k);
        lemma_next_start(fields, p, k)
    } else {
        q
    }
}

/// Whether the output that starts at `p` is one that cannot be listed: another one follows it, every
/// field up to it is in its place, and its id is not a number.
pub open spec fn is_unreadable_at(fields: Seq<(Seq<char>, Seq<char>)>, p: int) -> bool {
    &&& is_followed(fields, p)
    &&& number(fields[p].1) is None
    &&& forall|e: int| 0 <= e <= p ==> !#[trigger] is_misplaced(fields, e)
}

/// The fields are readable exactly when no output in them is one that cannot be listed.
proof fn lemma_readable(fields: Seq<(Seq<char>, Seq<char>)>)
    ensures
        is_readable(fields) <==> forall|p: int| !#[trigger] is_unreadable_at(fields, p),
{
    if exists|p: int| #[trigger] is_unreadable_at(fields, p) {
        let p = choose|p: int| #[trigger] is_unreadable_at(fields, p);
        let q = choose|q: int| p < q && #[trigger] starts_at(fields, q);
        let next = lemma_next_start(fields, p, q);
        let before = fields.take(next);
        lemma_beginning(fields, next);
        assert forall|e: int| !#[trigger] is_misplaced(before, e) by {
            if 0 <= e < next {
                assert(is_misplaced(before, e) == is_misplaced(fields, e));
                if e > p && is_misplaced(fields, e) {
                    assert(starts_at(fields, e - 1));
                    if e - 1 > p {
                        assert(!starts_at(fields, e - 1));
                    }
                }
            }
        }
        let (last, _) = lemma_scan_by_position(before);
        assert(starts_at(before, p));
        if last > p {
            assert(starts_at(before, last));
            assert(!starts_at(fields, last));
        }
        assert(last == p);
        assert(!is_readable_at(fields, next));
    } else {
        assert forall|i: int| 0 <= i < fields.len() implies #[trigger] is_readable_at(fields, i) by {
            let before = fields.take(i);
            if scan(before) is Ok {
                lemma_beginning(fields, i);
                let builder = scan(before)->Ok_0.0;
                if exists|e: int| #[trigger] is_misplaced(before, e) {
                    let e = lemma_first_misplaced(before, i);
                    lemma_scan_fails(before, e);
                } else {
                    let (last, _) = lemma_scan_by_position(before);
                    if builder.id.len() > 0 && fields[i].0 == "outputid"@ && !builder.is_readable() {
                        assert(starts_at(before, last));
                        assert(starts_at(fields, last));
                        assert(starts_at(fields, i));
                        assert(is_followed(fields, last));
                        assert forall|e: int| 0 <= e <= last implies !#[trigger] is_misplaced(
                            fields,
                            e,
                        ) by {
                            assert(!is_misplaced(before, e));
                        }
                        assert(is_unreadable_at(fields, last));
                    }
                }
            }
        }
    }
}

/// The outputs of a frame are those that others follow: every one of them, in order, each with the id
/// that starts it and the last name, plugin and enabled flag before the next one starts. Nothing else
/// is listed.
pub proof fn law_every_followed_output_is_listed(
    frame: Frame,
    outputs: Result<Vec<Output>, TypedResponseError>,
)
    requires
        call_ensures(Output::from_frame_multi, (frame,), outputs) || call_ensures(
            Output::try_from_frame_multi,
            (frame,),
            Some(outputs),
        ),
        forall|p: int| !#[trigger] is_misplaced(frame_fields(frame), p),
        forall|p: int| #[trigger]
            is_followed(frame_fields(frame), p) ==> number(frame_fields(frame)[p].1) is Some,
    ensures
        outputs matches Ok(out) && lists_followed(frame_fields(frame), out@),
{
    lemma_output_list(frame_fields(frame), outputs);
}

/// A frame in which a field stands where an output had to start is refused, and the error tells the
/// key of the first such field.
pub proof fn law_a_misplaced_field_is_refused(
    frame: Frame,
    outputs: Result<Vec<Output>, TypedResponseError>,
    e: int,
)
    requires
        call_ensures(Output::from_frame_multi, (frame,), outputs) || call_ensures(
            Output::try_from_frame_multi,
            (frame,),
            Some(outputs),
        ),
        is_misplaced(frame_fields(frame), e),
        forall|p: int| 0 <= p < e ==> !#[trigger] is_misplaced(frame_fields(frame), p),
    ensures
        outputs matches Err(TypedResponseError::UnexpectedField { expected, found }) && expected@
            == "outputid"@ && found@ == frame_fields(frame)[e].0,
{
    lemma_scan_fails(frame_fields(frame), e);
}

/// The outputs of a frame are given exactly when the id of every output that is to be listed is a
/// number.
pub proof fn law_outputs_are_given_if_their_ids_are_numbers(
    frame: Frame,
    outputs: Option<Result<Vec<Output>, TypedResponseError>>,
)
    requires
        call_ensures(Output::try_from_frame_multi, (frame,), outputs),
    ensures
        outputs is Some <==> forall|p: int| !#[trigger] is_unreadable_at(frame_fields(frame), p),
{
    lemma_readable(frame_fields(frame));
}

/// The outputs of a list of fields, by the same rules as those of a frame.
pub proof fn law_fields_are_listed_like_a_frame(
    fields: Vec<(String, String)>,
    all: Seq<(Seq<char>, Seq<char>)>,
    outputs: Result<Vec<Output>, TypedResponseError>,
    readable: bool,
)
    requires
        call_ensures(Output::from_fields, (fields,), outputs),
        call_ensures(Output::ids_are_numbers, (&fields,), readable),
        all.len() == fields@.len(),
        forall|i: int|
            0 <= i < all.len() ==> #[trigger] all[i] == (fields@[i].0@, fields@[i].1@),
    ensures
        readable <==> forall|p: int| !#[trigger] is_unreadable_at(all, p),
        readable && (forall|p: int| !#[trigger] is_misplaced(all, p)) ==> (outputs matches Ok(out)
            && lists_followed(all, out@)),
        forall|e: int| #[trigger]
            is_misplaced(all, e) && (forall|p: int| 0 <= p < e ==> !#[trigger] is_misplaced(all, p))
                ==> (outputs matches Err(TypedResponseError::UnexpectedField { expected, found })
                && expected@ == "outputid"@ && found@ == all[e].0),
{
    assert(all == field_texts(fields@));
    lemma_readable(all);
    if readable && (forall|p: int| !#[trigger] is_misplaced(all, p)) {
        assert forall|p: int| #[trigger] is_followed(all, p) implies number(all[p].1) is Some by {
            assert(!is_unreadable_at(all, p));
        }
        lemma_output_list(all, outputs);
    }
    assert forall|e: int| #[trigger]
        is_misplaced(all, e) && (forall|p: int| 0 <= p < e ==> !#[trigger] is_misplaced(all, p)) implies (
    outputs matches Err(TypedResponseError::UnexpectedField { expected, found }) && expected@
        == "outputid"@ && found@ == all[e].0) by {
        lemma_scan_fails(all, e);
    }
}

/// A frame that describes one output after the other gives every output but the last one, in order:
/// each with its id, and with its last name, plugin and enabled flag.
pub proof fn law_described_outputs_are_given(
    frame: Frame,
    blocks: Seq<Seq<(Seq<char>, Seq<char>)>>,
    outputs: Result<Vec<Output>, TypedResponseError>,
)
    requires
        call_ensures(Output::from_frame_multi, (frame,), outputs),
        blocks.len() > 0,
        forall|i: int| 0 <= i < blocks.len() ==> is_block(#[trigger] blocks[i]),
        frame_fields(frame) == concat(blocks),
    ensures
        outputs matches Ok(out) && out@.len() == blocks.len() - 1 && forall|i: int|
            0 <= i < out@.len() ==> {
                let output = #[trigger] out@[i];
                &&& number(blocks[i][0].1) == Some(output.id)
                &&& output.name@ == last_value(blocks[i], "outputname"@)
                &&& output.plugin@ == last_value(blocks[i], "plugin"@)
                &&& output.enabled <==> last_value(blocks[i], "outputenabled"@) == "1"@
            },
{
    law_every_output_but_the_last_is_listed(blocks);
    let out = outputs->Ok_0@;
    assert(output_views(out).len() == out.len());
    assert forall|i: int| 0 <= i < out.len() implies {
        let output = #[trigger] out[i];
        &&& number(blocks[i][0].1) == Some(output.id)
        &&& output.name@ == last_value(blocks[i], "outputname"@)
        &&& output.plugin@ == last_value(blocks[i], "plugin"@)
        &&& output.enabled <==> last_value(blocks[i], "outputenabled"@) == "1"@
    } by {
        assert(output_views(out)[i] == out[i]@);
        assert(is_block(blocks[i]));
        assert(blocks.drop_last()[i] == blocks[i]);
    }
}

/// A builder becomes an output with just the values that it holds. It is finished without one exactly
/// when it has no id.
pub proof fn law_a_builder_becomes_its_output(
    builder: OutputBuilder,
    output: Output,
    last: Option<Output>,
    default: OutputBuilder,
)
    requires
        number(builder.id@) is Some,
        call_ensures(OutputBuilder::into_output, (builder,), output),
        call_ensures(OutputBuilder::finish, (builder,), last),
        call_ensures(<OutputBuilder as Default>::default, (), default),
    ensures
        number(builder.id@) == Some(output.id),
        output.name@ == builder.name@,
        output.plugin@ == builder.plugin@,
        output.enabled <==> builder.enabled@ == "1"@,
        last matches Some(o) && o.id == output.id && o.name@ == output.name@ && o.plugin@
            == output.plugin@ && o.enabled == output.enabled,
        default.id@.len() == 0,
        default.name@.len() == 0,
        default.plugin@.len() == 0,
        default.enabled@.len() == 0,
{
}

/// A builder without an id is finished without an output.
pub proof fn law_a_builder_without_an_id_gives_nothing(
    builder: OutputBuilder,
    last: Option<Output>,
)
    requires
        builder.id@.len() == 0,
        call_ensures(OutputBuilder::finish, (builder,), last),
    ensures
        last is None,
{
}

/// Whether the builder that a field is given to is left as one with the given values.
pub open spec fn is_left_as(
    builder: OutputBuilder,
    id: Seq<char>,
    name: Seq<char>,
    plugin: Seq<char>,
    enabled: Seq<char>,
) -> bool {
    builder.id@ == id && builder.name@ == name && builder.plugin@ == plugin && builder.enabled@
        == enabled
}

/// An id completes the output in progress, with just the values that were held, and starts the next
/// one. Another field sets the value that it is for, and leaves the others as they are.
pub proof fn law_a_field_of_an_output_is_taken(
    key: &str,
    value: String,
    completed: Result<Option<Output>, TypedResponseError>,
)
    ensures
        forall|builder: &mut OutputBuilder|
            (#[trigger] call_ensures(OutputBuilder::field, (builder, key, value), completed)
                && builder.id@.len() > 0 || call_ensures(
                OutputBuilder::handle_field,
                (builder, key, value),
                completed,
            )) ==> {
                &&& key@ == "outputid"@ && number(builder.id@) is Some ==> {
                    &&& completed matches Ok(Some(output)) && number(builder.id@) == Some(output.id)
                        && output.name@ == builder.name@ && output.plugin@ == builder.plugin@ && (
                    output.enabled <==> builder.enabled@ == "1"@)
                    &&& is_left_as(*final(builder), value@, seq![], seq![], seq![])
                }
                &&& key@ != "outputid"@ ==> {
                    &&& completed matches Ok(None)
                    &&& is_left_as(
                        *final(builder),
                        builder.id@,
                        if key@ == "outputname"@ {
                            value@
                        } else {
                            builder.name@
                        },
                        if key@ == "plugin"@ {
                            value@
                        } else {
                            builder.plugin@
                        },
                        if key@ == "outputenabled"@ {
                            value@
                        } else {
                            builder.enabled@
                        },
                    )
                }
            },
{
    lemma_keys_differ();
}

/// Without an output in progress an id starts one, and any other field is refused and changes
/// nothing.
pub proof fn law_an_output_starts_with_its_id(
    key: &str,
    value: String,
    completed: Result<Option<Output>, TypedResponseError>,
    started: Result<(), TypedResponseError>,
)
    ensures
        forall|builder: &mut OutputBuilder| #[trigger]
            call_ensures(OutputBuilder::field, (builder, key, value), completed)
                && builder.id@.len() == 0 ==> if key@ == "outputid"@ {
                (completed matches Ok(None)) && is_left_as(
                    *final(builder),
                    value@,
                    builder.name@,
                    builder.plugin@,
                    builder.enabled@,
                )
            } else {
                (completed matches Err(TypedResponseError::UnexpectedField { expected, found })
                    && expected@ == "outputid"@ && found@ == key@) && *final(builder) == *builder
            },
        forall|builder: &mut OutputBuilder| #[trigger]
            call_ensures(OutputBuilder::handle_start_field, (builder, key, value), started)
                ==> if key@ == "outputid"@ {
                started is Ok && is_left_as(
                    *final(builder),
                    value@,
                    builder.name@,
                    builder.plugin@,
                    builder.enabled@,
                )
            } else {
                (started matches Err(TypedResponseError::UnexpectedField { expected, found })
                    && expected@ == "outputid"@ && found@ == key@) && *final(builder) == *builder
            },
{
}

/// The outputs of every frame can be read in which the id of each output that is to be listed is a
/// number.
pub proof fn law_outputs_with_numbers_can_be_read(frame: Frame)
    requires
        forall|p: int| !#[trigger] is_unreadable_at(frame_fields(frame), p),
    ensures
        call_requires(Output::from_frame_multi, (frame,)),
{
    lemma_readable(frame_fields(frame));
}

} // verus!
