//! Pretty-printer logic: a JSON value is rendered into batches of drawing
//! commands, grouped as immediate-mode display lists. Sending the batches
//! to a renderer is the caller's business; this printer only computes them.

use vstd::prelude::*;

use crate::display_lists::{DisplayList, DisplayListCommand, DisplayListMode, Draw};
use crate::errors::ChiselResult;

verus! {

/// Options that control the output from a given printer instance.
#[derive(Debug, Clone, Copy, PartialEq, Eq, Structural)]
pub struct FormatOptions {
    /// The level of indent to use
    pub indent: u16,
    /// The padding between KV pairs
    pub kvpadding: u16,
}

impl Default for FormatOptions {
    /// Sensible defaults for the various options: an indent of two and a
    /// padding of one.
    fn default() -> (r: FormatOptions)
        ensures
            r == (FormatOptions { indent: 2, kvpadding: 1 }),
    {
        FormatOptions { indent: 2, kvpadding: 1 }
    }
}

/// A JSON value as the printer consumes it. The printer only ever prints a
/// float, so a float value carries its rendered decimal text.
#[derive(Debug, PartialEq)]
pub enum JsonValue {
    /// An object: a list of key/value pairs
    Object(Vec<(String, JsonValue)>),
    /// An array of values
    Array(Vec<JsonValue>),
    /// A string value
    String(String),
    /// A float value, carried as its rendered decimal text
    Float(String),
    /// An integer value
    Integer(i64),
    /// A boolean value
    Boolean(bool),
    /// The null value
    Null,
}

/// The mathematical shape of a drawing command: texts as character
/// sequences.
pub enum DrawShape {
    NewLine,
    Indent(u16),
    Char(char),
    Repeat(char, u16),
    FixedWidthText(Seq<char>, u16),
    Text(Seq<char>),
    Slice(Seq<char>),
}

impl View for Draw {
    type V = DrawShape;

    closed spec fn view(&self) -> DrawShape {
        match self {
            Draw::NewLine => DrawShape::NewLine,
            Draw::Indent(n) => DrawShape::Indent(*n),
            Draw::Char(c) => DrawShape::Char(*c),
            Draw::Repeat(c, n) => DrawShape::Repeat(*c, *n),
            Draw::FixedWidthText(s, n) => DrawShape::FixedWidthText(s@, *n),
            Draw::Text(s) => DrawShape::Text(s@),
            Draw::Slice(s) => DrawShape::Slice(s@),
        }
    }
}

/// The drawing commands of one batch, in order; state mutation commands
/// carry no drawing.
pub open spec fn draws_of_cmds(cmds: Seq<DisplayListCommand>) -> Seq<DrawShape>
    decreases cmds.len(),
{
    if cmds.len() == 0 {
        Seq::<DrawShape>::empty()
    } else {
        (match cmds[0] {
            DisplayListCommand::Draw(d) => seq![d@],
            DisplayListCommand::ChangeState(s) => Seq::<DrawShape>::empty(),
        }) + draws_of_cmds(cmds.drop_first())
    }
}

/// The drawing commands of a whole pipeline of batches, in order.
pub open spec fn draws_of_lists(lists: Seq<DisplayList>) -> Seq<DrawShape>
    decreases lists.len(),
{
    if lists.len() == 0 {
        Seq::<DrawShape>::empty()
    } else {
        draws_of_cmds(lists[0].cmds@) + draws_of_lists(lists.drop_first())
    }
}

/// Appending one batch to the pipeline appends its drawing commands.
pub proof fn lemma_draws_of_lists_push(lists: Seq<DisplayList>, l: DisplayList)
    ensures
        draws_of_lists(lists.push(l)) == draws_of_lists(lists) + draws_of_cmds(l.cmds@),
    decreases lists.len(),
{
    if lists.len() == 0 {
        assert(lists.push(l).drop_first() =~= lists);
        assert(lists.push(l)[0] == l);
        assert(draws_of_lists(lists.push(l)) == draws_of_cmds(l.cmds@) + draws_of_lists(lists));
        assert(draws_of_cmds(l.cmds@) + draws_of_lists(lists) =~= draws_of_lists(lists)
            + draws_of_cmds(l.cmds@));
    } else {
        lemma_draws_of_lists_push(lists.drop_first(), l);
        assert(lists.push(l).drop_first() =~= lists.drop_first().push(l));
        assert(lists.push(l)[0] == lists[0]);
        assert(draws_of_lists(lists.push(l)) =~= draws_of_lists(lists) + draws_of_cmds(l.cmds@));
    }
}

/// The digits of a natural number, most significant first.
pub open spec fn dec_digits(n: nat) -> Seq<char>
    decreases n,
{
    if n < 10 {
        seq![digit_char(n % 10)]
    } else {
        dec_digits(n / 10).push(digit_char(n % 10))
    }
}

/// The character of one decimal digit.
pub open spec fn digit_char(d: nat) -> char {
    if d == 0 {
        '0'
    } else if d == 1 {
        '1'
    } else if d == 2 {
        '2'
    } else if d == 3 {
        '3'
    } else if d == 4 {
        '4'
    } else if d == 5 {
        '5'
    } else if d == 6 {
        '6'
    } else if d == 7 {
        '7'
    } else if d == 8 {
        '8'
    } else {
        '9'
    }
}

/// The decimal text of a signed 64-bit integer.
pub open spec fn i64_text(v: int) -> Seq<char> {
    if v < 0 {
        seq!['-'] + dec_digits((-v) as nat)
    } else {
        dec_digits(v as nat)
    }
}

/// Relies on `i64::to_string` (through `Display`): the decimal
/// representation of the value, with a leading minus sign when negative.
#[verifier::external_body]
fn i64_to_string(v: i64) -> (r: String)
    ensures
        r@ == i64_text(v as int),
{
    v.to_string()
}

/// The next nesting level, clamped at the largest representable level.
pub open spec fn next_level(level: int) -> int {
    if level >= 65535 {
        65535
    } else {
        level + 1
    }
}

/// The indent width of a nesting level: the level times the configured
/// indent, clamped at the largest representable width.
pub open spec fn indent_width(level: int, ind: int) -> u16 {
    if level * ind > 65535 {
        65535u16
    } else {
        (level * ind) as u16
    }
}

/// The next nesting level, clamped.
fn bump_level(level: u16) -> (r: u16)
    ensures
        r as int == next_level(level as int),
{
    if level == 65535 {
        65535
    } else {
        level + 1
    }
}

/// The indent width of a nesting level, clamped.
fn scaled_indent(level: u16, ind: u16) -> (r: u16)
    ensures
        r == indent_width(level as int, ind as int),
{
    proof {
        assert((level as int) * (ind as int) <= 65535 * 65535) by (nonlinear_arith)
            requires
                level as int <= 65535,
                ind as int <= 65535,
        ;
    }
    let w: u32 = (level as u32) * (ind as u32);
    if w > 65535 {
        65535
    } else {
        w as u16
    }
}

/// The drawing commands that render one JSON value at a nesting level.
pub open spec fn value_draws(v: JsonValue, level: int, opts: FormatOptions) -> Seq<DrawShape>
    decreases v, 0int, 2int,
    via value_draws_dec
{
    match v {
        JsonValue::Object(kids) => object_draws(kids@, level, opts),
        JsonValue::Array(kids) => array_draws(kids@, level, opts),
        JsonValue::String(s) => seq![DrawShape::Text(s@)],
        JsonValue::Float(text) => seq![DrawShape::Text(text@)],
        JsonValue::Integer(n) => seq![DrawShape::Text(i64_text(n as int))],
        JsonValue::Boolean(b) => (if b {
            seq![DrawShape::Slice("true"@)]
        } else {
            seq![DrawShape::Slice("false"@)]
        }),
        JsonValue::Null => seq![DrawShape::Slice("null"@)],
    }
}

#[via_fn]
proof fn value_draws_dec(v: JsonValue, level: int, opts: FormatOptions) {
    match v {
        JsonValue::Object(kids) => {
            assert(decreases_to!(v => kids));
            assert(decreases_to!(kids => kids@));
        },
        JsonValue::Array(kids) => {
            assert(decreases_to!(v => kids));
            assert(decreases_to!(kids => kids@));
        },
        _ => {},
    }
}

/// The drawing commands that render an array: the opening bracket (with a
/// newline when the array is not empty), each item indented one level
/// deeper with a comma after every item but the last, and the closing
/// bracket back at the array's own indent.
pub open spec fn array_draws(kids: Seq<JsonValue>, level: int, opts: FormatOptions) -> Seq<
    DrawShape,
>
    decreases kids, 1int, 1int,
{
    let opening = if kids.len() == 0 {
        seq![DrawShape::Char('[')]
    } else {
        seq![DrawShape::Char('['), DrawShape::NewLine]
    };
    let closing = if kids.len() == 0 {
        seq![DrawShape::Char(']')]
    } else {
        seq![DrawShape::Indent(indent_width(level, opts.indent as int)), DrawShape::Char(']')]
    };
    opening + array_items_draws(kids, 0, level, opts) + closing
}

/// The drawing commands of the array items from index `i` on.
pub open spec fn array_items_draws(
    kids: Seq<JsonValue>,
    i: int,
    level: int,
    opts: FormatOptions,
) -> Seq<DrawShape>
    decreases kids, 0int, kids.len() - i,
{
    if i < 0 || i >= kids.len() {
        Seq::<DrawShape>::empty()
    } else {
        let sep = if i != kids.len() - 1 {
            seq![DrawShape::Char(','), DrawShape::NewLine]
        } else {
            seq![DrawShape::NewLine]
        };
        seq![DrawShape::Indent(indent_width(next_level(level), opts.indent as int))] + value_draws(
            kids[i],
            next_level(level),
            opts,
        ) + sep + array_items_draws(kids, i + 1, level, opts)
    }
}

/// The drawing commands that render an object: the opening brace (with a
/// newline when the object is not empty), each pair one level deeper with
/// a trailing comma on every pair but the last, and the closing brace back
/// at the object's own indent.
pub open spec fn object_draws(
    kids: Seq<(String, JsonValue)>,
    level: int,
    opts: FormatOptions,
) -> Seq<DrawShape>
    decreases kids, 1int, 1int,
{
    let opening = if kids.len() == 0 {
        seq![DrawShape::Char('{')]
    } else {
        seq![DrawShape::Char('{'), DrawShape::NewLine]
    };
    let closing = if kids.len() == 0 {
        seq![DrawShape::Char('}')]
    } else {
        seq![DrawShape::Indent(indent_width(level, opts.indent as int)), DrawShape::Char('}')]
    };
    opening + object_pairs_draws(kids, 0, level, opts) + closing
}

/// The drawing commands of the object pairs from index `i` on.
pub open spec fn object_pairs_draws(
    kids: Seq<(String, JsonValue)>,
    i: int,
    level: int,
    opts: FormatOptions,
) -> Seq<DrawShape>
    decreases kids, 0int, kids.len() - i,
    via object_pairs_draws_dec
{
    if i < 0 || i >= kids.len() {
        Seq::<DrawShape>::empty()
    } else {
        pair_draws(kids[i].0, kids[i].1, i != kids.len() - 1, next_level(level), opts)
            + object_pairs_draws(kids, i + 1, level, opts)
    }
}

#[via_fn]
proof fn object_pairs_draws_dec(
    kids: Seq<(String, JsonValue)>,
    i: int,
    level: int,
    opts: FormatOptions,
) {
    if 0 <= i < kids.len() {
        assert(decreases_to!(kids => kids[i]));
        assert(decreases_to!(kids[i] => kids[i].1));
    }
}

/// The drawing commands of one key/value pair at a nesting level: the
/// indented key, the padded colon, the value, and a trailing comma and
/// newline (or just the newline for the last pair).
pub open spec fn pair_draws(
    key: String,
    value: JsonValue,
    trailing: bool,
    level: int,
    opts: FormatOptions,
) -> Seq<DrawShape>
    decreases value, 2int, 2int,
{
    let head = seq![
        DrawShape::Indent(indent_width(level, opts.indent as int)),
        DrawShape::Text(key@),
        DrawShape::Indent(opts.kvpadding),
        DrawShape::Slice(":"@),
        DrawShape::Indent(opts.kvpadding),
    ];
    let tail = if trailing {
        seq![DrawShape::Char(','), DrawShape::NewLine]
    } else {
        seq![DrawShape::NewLine]
    };
    head + value_draws(value, level, opts) + tail
}

/// Pretty printer for [JsonValue]s: rendering appends batches of drawing
/// commands to the pipeline.
#[derive(Debug)]
pub struct PrettyPrinter {
    /// The display lists produced so far, in submission order
    pub pipeline: Vec<DisplayList>,
    /// The formatting options
    pub options: FormatOptions,
}

impl PrettyPrinter {
    /// Construct a new instance with a set of options and an empty pipeline.
    pub fn new(options: FormatOptions) -> (r: PrettyPrinter)
        ensures
            r.pipeline@ == Seq::<DisplayList>::empty(),
            r.options == options,
    {
        PrettyPrinter { pipeline: Vec::new(), options }
    }

    /// Hand a [DisplayList] to the rendering pipeline.
    fn submit_command_list(&mut self, cmds: DisplayList) -> (r: ChiselResult<()>)
        ensures
            r is Ok,
            final(self).options == old(self).options,
            draws_of_lists(final(self).pipeline@) == draws_of_lists(old(self).pipeline@)
                + draws_of_cmds(cmds.cmds@),
    {
        proof {
            lemma_draws_of_lists_push(self.pipeline@, cmds);
        }
        self.pipeline.push(cmds);
        Ok(())
    }

    /// Submit one immediate-mode drawing command.
    fn submit_draw1(&mut self, a: Draw) -> (r: ChiselResult<()>)
        ensures
            r is Ok,
            final(self).options == old(self).options,
            draws_of_lists(final(self).pipeline@) == draws_of_lists(old(self).pipeline@) + seq![
                a@,
            ],
    {
        let ghost sa = a@;
        let mut v: Vec<DisplayListCommand> = Vec::new();
        v.push(DisplayListCommand::Draw(a));
        proof {
            assert(draws_of_cmds(v@) =~= seq![sa]) by {
                reveal_with_fuel(draws_of_cmds, 3);
                assert(v@.drop_first() =~= Seq::<DisplayListCommand>::empty());
            }
        }
        self.submit_command_list(DisplayList { mode: DisplayListMode::Immediate, cmds: v })
    }

    /// Submit two immediate-mode drawing commands as one batch.
    fn submit_draw2(&mut self, a: Draw, b: Draw) -> (r: ChiselResult<()>)
        ensures
            r is Ok,
            final(self).options == old(self).options,
            draws_of_lists(final(self).pipeline@) == draws_of_lists(old(self).pipeline@) + seq![
                a@,
                b@,
            ],
    {
        let ghost sa = a@;
        let ghost sb = b@;
        let mut v: Vec<DisplayListCommand> = Vec::new();
        v.push(DisplayListCommand::Draw(a));
        v.push(DisplayListCommand::Draw(b));
        proof {
            assert(draws_of_cmds(v@) =~= seq![sa, sb]) by {
                reveal_with_fuel(draws_of_cmds, 4);
                assert(v@.drop_first().drop_first() =~= Seq::<DisplayListCommand>::empty());
                assert(v@.drop_first()[0] == v@[1]);
            }
        }
        self.submit_command_list(DisplayList { mode: DisplayListMode::Immediate, cmds: v })
    }

    /// Submit five immediate-mode drawing commands as one batch.
    fn submit_draw5(&mut self, a: Draw, b: Draw, c: Draw, d: Draw, e: Draw) -> (r: ChiselResult<
        (),
    >)
        ensures
            r is Ok,
            final(self).options == old(self).options,
            draws_of_lists(final(self).pipeline@) == draws_of_lists(old(self).pipeline@) + seq![
                a@,
                b@,
                c@,
                d@,
                e@,
            ],
    {
        let ghost sa = a@;
        let ghost sb = b@;
        let ghost sc = c@;
        let ghost sd = d@;
        let ghost se = e@;
        let mut v: Vec<DisplayListCommand> = Vec::new();
        v.push(DisplayListCommand::Draw(a));
        v.push(DisplayListCommand::Draw(b));
        v.push(DisplayListCommand::Draw(c));
        v.push(DisplayListCommand::Draw(d));
        v.push(DisplayListCommand::Draw(e));
        proof {
            assert(draws_of_cmds(v@) =~= seq![sa, sb, sc, sd, se]) by {
                reveal_with_fuel(draws_of_cmds, 7);
                assert(v@.drop_first()[0] == v@[1]);
                assert(v@.drop_first().drop_first()[0] == v@[2]);
                assert(v@.drop_first().drop_first().drop_first()[0] == v@[3]);
                assert(v@.drop_first().drop_first().drop_first().drop_first()[0] == v@[4]);
                assert(v@.drop_first().drop_first().drop_first().drop_first().drop_first()
                    =~= Seq::<DisplayListCommand>::empty());
            }
        }
        self.submit_command_list(DisplayList { mode: DisplayListMode::Immediate, cmds: v })
    }

    /// Recursively render a JSON value, starting at the outermost nesting
    /// level.
    pub fn render_json(&mut self, value: JsonValue) -> (r: ChiselResult<()>)
        ensures
            r is Ok,
            final(self).options == old(self).options,
            draws_of_lists(final(self).pipeline@) == draws_of_lists(old(self).pipeline@)
                + value_draws(value, 0, old(self).options),
    {
        self.render_json_value(0, &value)
    }

    /// Render one JSON value at a nesting level.
    fn render_json_value(&mut self, level: u16, value: &JsonValue) -> (r: ChiselResult<()>)
        ensures
            r is Ok,
            final(self).options == old(self).options,
            draws_of_lists(final(self).pipeline@) == draws_of_lists(old(self).pipeline@)
                + value_draws(*value, level as int, old(self).options),
        decreases value, 0int, 2int,
    {
        match value {
            JsonValue::Object(kids) => {
                proof {
                    assert(decreases_to!(*value => *kids));
                    assert(decreases_to!(*kids => kids@));
                }
                self.render_json_object(level, kids)
            },
            JsonValue::Array(kids) => {
                proof {
                    assert(decreases_to!(*value => *kids));
                    assert(decreases_to!(*kids => kids@));
                }
                self.render_json_array(level, kids)
            },
            JsonValue::String(s) => self.render_json_string(s),
            JsonValue::Float(text) => self.render_json_float(text),
            JsonValue::Integer(n) => self.render_json_integer(*n),
            JsonValue::Boolean(b) => self.render_json_boolean(*b),
            JsonValue::Null => self.render_json_null(),
        }
    }

    /// Render a JSON array at a nesting level.
    fn render_json_array(&mut self, level: u16, kids: &Vec<JsonValue>) -> (r: ChiselResult<()>)
        ensures
            r is Ok,
            final(self).options == old(self).options,
            draws_of_lists(final(self).pipeline@) == draws_of_lists(old(self).pipeline@)
                + array_draws(kids@, level as int, old(self).options),
        decreases kids@, 1int, 1int,
    {
        let ghost opts = self.options;
        let ghost base = draws_of_lists(self.pipeline@);
        let ghost opening = (if kids@.len() == 0 {
            seq![DrawShape::Char('[')]
        } else {
            seq![DrawShape::Char('['), DrawShape::NewLine]
        });
        if kids.len() > 0 {
            let _ = self.submit_draw2(Draw::Char('['), Draw::NewLine);
        } else {
            let _ = self.submit_draw1(Draw::Char('['));
        }
        let ghost target = base + opening + array_items_draws(kids@, 0, level as int, opts);
        let mut i: usize = 0;
        while i < kids.len()
            invariant
                i <= kids@.len(),
                self.options == opts,
                draws_of_lists(self.pipeline@) + array_items_draws(
                    kids@,
                    i as int,
                    level as int,
                    opts,
                ) == target,
            decreases kids@.len() - i,
        {
            let ghost pre = draws_of_lists(self.pipeline@);
            let ghost item_level = next_level(level as int);
            let deeper = bump_level(level);
            let ind = scaled_indent(deeper, self.options.indent);
            let _ = self.submit_draw1(Draw::Indent(ind));
            proof {
                assert(decreases_to!(kids@ => kids@[i as int]));
            }
            let _ = self.render_json_value(deeper, &kids[i]);
            if i != kids.len() - 1 {
                let _ = self.submit_draw2(Draw::Char(','), Draw::NewLine);
            } else {
                let _ = self.submit_draw1(Draw::NewLine);
            }
            proof {
                let sep = (if i as int != kids@.len() - 1 {
                    seq![DrawShape::Char(','), DrawShape::NewLine]
                } else {
                    seq![DrawShape::NewLine]
                });
                let block = seq![DrawShape::Indent(indent_width(item_level, opts.indent as int))]
                    + value_draws(kids@[i as int], item_level, opts) + sep;
                assert(draws_of_lists(self.pipeline@) =~= pre + block);
                assert(array_items_draws(kids@, i as int, level as int, opts) =~= block
                    + array_items_draws(kids@, i + 1, level as int, opts));
                assert(draws_of_lists(self.pipeline@) + array_items_draws(
                    kids@,
                    i + 1,
                    level as int,
                    opts,
                ) =~= target);
            }
            i = i + 1;
        }
        let ghost pre_close = draws_of_lists(self.pipeline@);
        proof {
            assert(array_items_draws(kids@, kids@.len() as int, level as int, opts)
                =~= Seq::<DrawShape>::empty());
            assert(pre_close =~= target);
        }
        let r = if kids.len() > 0 {
            let ind = scaled_indent(level, self.options.indent);
            self.submit_draw2(Draw::Indent(ind), Draw::Char(']'))
        } else {
            self.submit_draw1(Draw::Char(']'))
        };
        proof {
            assert(draws_of_lists(self.pipeline@) =~= base + array_draws(
                kids@,
                level as int,
                opts,
            ));
        }
        r
    }

    /// Render a JSON object at a nesting level.
    fn render_json_object(
        &mut self,
        level: u16,
        kids: &Vec<(String, JsonValue)>,
    ) -> (r: ChiselResult<()>)
        ensures
            r is Ok,
            final(self).options == old(self).options,
            draws_of_lists(final(self).pipeline@) == draws_of_lists(old(self).pipeline@)
                + object_draws(kids@, level as int, old(self).options),
        decreases kids@, 1int, 1int,
    {
        let ghost opts = self.options;
        let ghost base = draws_of_lists(self.pipeline@);
        let ghost opening = (if kids@.len() == 0 {
            seq![DrawShape::Char('{')]
        } else {
            seq![DrawShape::Char('{'), DrawShape::NewLine]
        });
        if kids.len() > 0 {
            let _ = self.submit_draw2(Draw::Char('{'), Draw::NewLine);
        } else {
            let _ = self.submit_draw1(Draw::Char('{'));
        }
        let ghost target = base + opening + object_pairs_draws(kids@, 0, level as int, opts);
        let mut i: usize = 0;
        while i < kids.len()
            invariant
                i <= kids@.len(),
                self.options == opts,
                draws_of_lists(self.pipeline@) + object_pairs_draws(
                    kids@,
                    i as int,
                    level as int,
                    opts,
                ) == target,
            decreases kids@.len() - i,
        {
            let ghost pre = draws_of_lists(self.pipeline@);
            let deeper = bump_level(level);
            let trailing = i != kids.len() - 1;
            proof {
                assert(decreases_to!(kids@ => kids@[i as int]));
                assert(decreases_to!(kids@[i as int] => kids@[i as int].1));
            }
            let pair = &kids[i];
            let _ = self.render_json_pair(deeper, trailing, &pair.0, &pair.1);
            proof {
                assert(object_pairs_draws(kids@, i as int, level as int, opts) =~= pair_draws(
                    kids@[i as int].0,
                    kids@[i as int].1,
                    i as int != kids@.len() - 1,
                    next_level(level as int),
                    opts,
                ) + object_pairs_draws(kids@, i + 1, level as int, opts));
                assert(draws_of_lists(self.pipeline@) + object_pairs_draws(
                    kids@,
                    i + 1,
                    level as int,
                    opts,
                ) =~= target);
            }
            i = i + 1;
        }
        proof {
            assert(object_pairs_draws(kids@, kids@.len() as int, level as int, opts)
                =~= Seq::<DrawShape>::empty());
            assert(draws_of_lists(self.pipeline@) =~= target);
        }
        let r = if kids.len() > 0 {
            let ind = scaled_indent(level, self.options.indent);
            self.submit_draw2(Draw::Indent(ind), Draw::Char('}'))
        } else {
            self.submit_draw1(Draw::Char('}'))
        };
        proof {
            assert(draws_of_lists(self.pipeline@) =~= base + object_draws(
                kids@,
                level as int,
                opts,
            ));
        }
        r
    }

    /// Output one key/value pair from within an object.
    fn render_json_pair(
        &mut self,
        level: u16,
        trailing: bool,
        key: &String,
        value: &JsonValue,
    ) -> (r: ChiselResult<()>)
        ensures
            r is Ok,
            final(self).options == old(self).options,
            draws_of_lists(final(self).pipeline@) == draws_of_lists(old(self).pipeline@)
                + pair_draws(*key, *value, trailing, level as int, old(self).options),
        decreases value, 2int, 2int,
    {
        let ghost opts = self.options;
        let ghost base = draws_of_lists(self.pipeline@);
        let ind = scaled_indent(level, self.options.indent);
        let _ = self.submit_draw5(
            Draw::Indent(ind),
            Draw::Text(key.clone()),
            Draw::Indent(self.options.kvpadding),
            Draw::Slice(":"),
            Draw::Indent(self.options.kvpadding),
        );
        let _ = self.render_json_value(level, value);
        let r = if trailing {
            self.submit_draw2(Draw::Char(','), Draw::NewLine)
        } else {
            self.submit_draw1(Draw::NewLine)
        };
        proof {
            assert(draws_of_lists(self.pipeline@) =~= base + pair_draws(
                *key,
                *value,
                trailing,
                level as int,
                opts,
            ));
        }
        r
    }

    /// Draw a string value.
    fn render_json_string(&mut self, value: &String) -> (r: ChiselResult<()>)
        ensures
            r is Ok,
            final(self).options == old(self).options,
            draws_of_lists(final(self).pipeline@) == draws_of_lists(old(self).pipeline@) + seq![
                DrawShape::Text(value@),
            ],
    {
        self.submit_draw1(Draw::Text(value.clone()))
    }

    /// Draw a float value from its rendered decimal text.
    fn render_json_float(&mut self, value: &String) -> (r: ChiselResult<()>)
        ensures
            r is Ok,
            final(self).options == old(self).options,
            draws_of_lists(final(self).pipeline@) == draws_of_lists(old(self).pipeline@) + seq![
                DrawShape::Text(value@),
            ],
    {
        self.submit_draw1(Draw::Text(value.clone()))
    }

    /// Draw an integer value in its decimal representation.
    fn render_json_integer(&mut self, value: i64) -> (r: ChiselResult<()>)
        ensures
            r is Ok,
            final(self).options == old(self).options,
            draws_of_lists(final(self).pipeline@) == draws_of_lists(old(self).pipeline@) + seq![
                DrawShape::Text(i64_text(value as int)),
            ],
    {
        self.submit_draw1(Draw::Text(i64_to_string(value)))
    }

    /// Draw a boolean value.
    fn render_json_boolean(&mut self, value: bool) -> (r: ChiselResult<()>)
        ensures
            r is Ok,
            final(self).options == old(self).options,
            draws_of_lists(final(self).pipeline@) == draws_of_lists(old(self).pipeline@) + (if value {
                seq![DrawShape::Slice("true"@)]
            } else {
                seq![DrawShape::Slice("false"@)]
            }),
    {
        if value {
            self.submit_draw1(Draw::Slice("true"))
        } else {
            self.submit_draw1(Draw::Slice("false"))
        }
    }

    /// Draw a null value.
    fn render_json_null(&mut self) -> (r: ChiselResult<()>)
        ensures
            r is Ok,
            final(self).options == old(self).options,
            draws_of_lists(final(self).pipeline@) == draws_of_lists(old(self).pipeline@) + seq![
                DrawShape::Slice("null"@),
            ],
    {
        self.submit_draw1(Draw::Slice("null"))
    }
}

} // verus!
