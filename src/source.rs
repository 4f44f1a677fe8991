//! Generation of complete device programs around an opcode's instruction
//! body, in the two conventions: a PTX entry point handed to the driver
//! directly, and a CUDA kernel with inline PTX handed to the runtime compiler.

use vstd::prelude::*;

verus! {

/// Program header of the PTX convention.
pub const PTX_HEADER: &'static str = ".version 6.5\n.target sm_30\n.address_size 64";

/// The argument names as character sequences.
pub open spec fn arg_names(args: Seq<&str>) -> Seq<Seq<char>> {
    args.map_values(|a: &str| a@)
}

/// `prefix + item + suffix` for each item, separated by `", "`.
pub open spec fn joined(items: Seq<Seq<char>>, prefix: Seq<char>, suffix: Seq<char>) -> Seq<char>
    decreases items.len(),
{
    if items.len() == 0 {
        Seq::empty()
    } else if items.len() == 1 {
        prefix + items[0] + suffix
    } else {
        joined(items.drop_last(), prefix, suffix) + ", "@ + prefix + items.last() + suffix
    }
}

/// Register declaration and parameter load of each argument's address.
pub open spec fn ptx_loads(items: Seq<Seq<char>>) -> Seq<char>
    decreases items.len(),
{
    if items.len() == 0 {
        Seq::empty()
    } else {
        let a = items.last();
        ptx_loads(items.drop_last()) + ".reg .u64    "@ + a + "_addr;\n"@ + "ld.param.u64 "@ + a
            + "_addr, ["@ + a + "];\n"@
    }
}

/// The decimal digit `d`.
pub open spec fn digit(d: nat) -> Seq<char> {
    if d == 0 {
        "0"@
    } else if d == 1 {
        "1"@
    } else if d == 2 {
        "2"@
    } else if d == 3 {
        "3"@
    } else if d == 4 {
        "4"@
    } else if d == 5 {
        "5"@
    } else if d == 6 {
        "6"@
    } else if d == 7 {
        "7"@
    } else if d == 8 {
        "8"@
    } else {
        "9"@
    }
}

/// Decimal notation of `n`, without leading zeros.
pub open spec fn decimal(n: nat) -> Seq<char>
    decreases n,
{
    if n < 10 {
        digit(n)
    } else {
        decimal(n / 10) + digit(n % 10)
    }
}

/// Register declaration of each argument's address, bound to the inline
/// assembly operand of the same position.
pub open spec fn inline_loads(items: Seq<Seq<char>>) -> Seq<char>
    decreases items.len(),
{
    if items.len() == 0 {
        Seq::empty()
    } else {
        let a = items.last();
        inline_loads(items.drop_last()) + ".reg .u64 "@ + a + "_addr;\n"@ + "mov.u64   "@ + a
            + "_addr, %"@ + decimal((items.len() - 1) as nat) + ";\n"@
    }
}

/// Every `%` doubled, so that the embedding compiler reads it literally.
pub open spec fn escape_percent(s: Seq<char>) -> Seq<char>
    decreases s.len(),
{
    if s.len() == 0 {
        Seq::empty()
    } else {
        escape_percent(s.drop_last()) + if s.last() == '%' {
            "%%"@
        } else {
            seq![s.last()]
        }
    }
}

/// The pieces of `s` between newlines, in order: one more than there are
/// newlines.
pub open spec fn split_at_newlines(s: Seq<char>) -> Seq<Seq<char>>
    decreases s.len(),
{
    if s.len() == 0 {
        seq![Seq::empty()]
    } else {
        let p = split_at_newlines(s.drop_last());
        if s.last() == '\n' {
            p.push(Seq::empty())
        } else {
            p.update(p.len() - 1, p.last().push(s.last()))
        }
    }
}

/// The lines of `s`: the pieces between newlines, but for the empty piece
/// after a final newline. Empty text has no lines.
pub open spec fn lines(s: Seq<char>) -> Seq<Seq<char>> {
    if s.len() == 0 {
        Seq::empty()
    } else if s.last() == '\n' {
        split_at_newlines(s).drop_last()
    } else {
        split_at_newlines(s)
    }
}

/// A line as a string literal, followed by a newline.
pub open spec fn quoted(line: Seq<char>) -> Seq<char> {
    "\""@ + line + "\"\n"@
}

/// The quoted lines, separated by four spaces.
pub open spec fn joined_quoted(ls: Seq<Seq<char>>) -> Seq<char>
    decreases ls.len(),
{
    if ls.len() == 0 {
        Seq::empty()
    } else if ls.len() == 1 {
        quoted(ls[0])
    } else {
        joined_quoted(ls.drop_last()) + "    "@ + quoted(ls.last())
    }
}

/// Each line of `s` as a string literal, as inline assembly takes it.
pub open spec fn quoted_lines(s: Seq<char>) -> Seq<char> {
    joined_quoted(lines(s))
}

proof fn lemma_split_nonempty(s: Seq<char>)
    ensures
        split_at_newlines(s).len() >= 1,
    decreases s.len(),
{
    if s.len() > 0 {
        lemma_split_nonempty(s.drop_last());
    }
}

/// The complete program of the PTX convention.
pub open spec fn direct_source(header: Seq<char>, args: Seq<Seq<char>>, body: Seq<char>) -> Seq<
    char,
> {
    header + "\n"@ + ".entry run("@ + joined(args, ".param .u64 "@, ""@) + ")"@ + "\n{\n"@
        + ptx_loads(args) + "\n"@ + body + "\nret;\n}"@
}

/// The complete program of the CUDA convention.
pub open spec fn compiled_source(args: Seq<Seq<char>>, body: Seq<char>) -> Seq<char> {
    "extern \"C\" __global__ void run("@ + joined(args, "unsigned long long * "@, ""@) + ")"@
        + " {\n"@ + "asm("@ + quoted_lines(inline_loads(args) + "\n"@ + escape_percent(body))
        + "    :: "@ + joined(args, "\"l\"("@, ")"@) + ");"@ + "\n}"@
}

/// Appends `prefix + name + suffix` for each name, separated by `", "`.
fn append_joined(out: &mut String, args: &Vec<&str>, prefix: &str, suffix: &str)
    ensures
        final(out)@ == old(out)@ + joined(arg_names(args@), prefix@, suffix@),
{
    let ghost start = out@;
    let mut i: usize = 0;
    while i < args.len()
        invariant
            i <= args@.len(),
            out@ == start + joined(arg_names(args@).take(i as int), prefix@, suffix@),
        decreases args@.len() - i,
    {
        proof {
            assert(arg_names(args@).take(i + 1).drop_last() =~= arg_names(args@).take(i as int));
        }
        if i > 0 {
            out.append(", ");
        }
        out.append(prefix);
        out.append(args[i]);
        out.append(suffix);
        i = i + 1;
    }
    proof {
        assert(arg_names(args@).take(args@.len() as int) =~= arg_names(args@));
    }
}

/// Appends the PTX address loads of the arguments.
fn append_ptx_loads(out: &mut String, args: &Vec<&str>)
    ensures
        final(out)@ == old(out)@ + ptx_loads(arg_names(args@)),
{
    let ghost start = out@;
    let mut i: usize = 0;
    while i < args.len()
        invariant
            i <= args@.len(),
            out@ == start + ptx_loads(arg_names(args@).take(i as int)),
        decreases args@.len() - i,
    {
        proof {
            assert(arg_names(args@).take(i + 1).drop_last() =~= arg_names(args@).take(i as int));
        }
        out.append(".reg .u64    ");
        out.append(args[i]);
        out.append("_addr;\n");
        out.append("ld.param.u64 ");
        out.append(args[i]);
        out.append("_addr, [");
        out.append(args[i]);
        out.append("];\n");
        i = i + 1;
    }
    proof {
        assert(arg_names(args@).take(args@.len() as int) =~= arg_names(args@));
    }
}

fn digit_str(d: usize) -> (r: &'static str)
    requires
        d < 10,
    ensures
        r@ == digit(d as nat),
{
    if d == 0 {
        "0"
    } else if d == 1 {
        "1"
    } else if d == 2 {
        "2"
    } else if d == 3 {
        "3"
    } else if d == 4 {
        "4"
    } else if d == 5 {
        "5"
    } else if d == 6 {
        "6"
    } else if d == 7 {
        "7"
    } else if d == 8 {
        "8"
    } else {
        "9"
    }
}

/// Appends the decimal notation of `n`.
fn append_decimal(out: &mut String, n: usize)
    ensures
        final(out)@ == old(out)@ + decimal(n as nat),
    decreases n,
{
    if n < 10 {
        out.append(digit_str(n));
    } else {
        append_decimal(out, n / 10);
        out.append(digit_str(n % 10));
        proof {
            assert(old(out)@ + decimal((n / 10) as nat) + digit((n % 10) as nat) =~= old(out)@
                + decimal(n as nat));
        }
    }
}

/// Appends the address registers of the inline assembly, bound to its
/// positional operands.
fn append_inline_loads(out: &mut String, args: &Vec<&str>)
    ensures
        final(out)@ == old(out)@ + inline_loads(arg_names(args@)),
{
    let ghost start = out@;
    let mut i: usize = 0;
    while i < args.len()
        invariant
            i <= args@.len(),
            out@ == start + inline_loads(arg_names(args@).take(i as int)),
        decreases args@.len() - i,
    {
        proof {
            assert(arg_names(args@).take(i + 1).drop_last() =~= arg_names(args@).take(i as int));
        }
        out.append(".reg .u64 ");
        out.append(args[i]);
        out.append("_addr;\n");
        out.append("mov.u64   ");
        out.append(args[i]);
        out.append("_addr, %");
        append_decimal(out, i);
        out.append(";\n");
        i = i + 1;
    }
    proof {
        assert(arg_names(args@).take(args@.len() as int) =~= arg_names(args@));
    }
}

/// Appends `body` with every `%` doubled.
fn append_escaped(out: &mut String, body: &str)
    ensures
        final(out)@ == old(out)@ + escape_percent(body@),
{
    let ghost start = out@;
    let n = body.unicode_len();
    let mut i: usize = 0;
    while i < n
        invariant
            n == body@.len(),
            i <= n,
            out@ == start + escape_percent(body@.take(i as int)),
        decreases n - i,
    {
        proof {
            assert(body@.take(i + 1).drop_last() =~= body@.take(i as int));
        }
        let c = body.get_char(i);
        if c == '%' {
            out.append("%%");
        } else {
            let one = body.substring_char(i, i + 1);
            assert(one@ =~= seq![c]);
            out.append(one);
        }
        i = i + 1;
    }
    proof {
        assert(body@.take(n as int) =~= body@);
    }
}

/// The lines of `text`.
fn text_lines<'a>(text: &'a str) -> (r: Vec<&'a str>)
    ensures
        r@.map_values(|l: &str| l@) == lines(text@),
{
    let n = text.unicode_len();
    let mut r: Vec<&'a str> = Vec::new();
    let mut start: usize = 0;
    let mut i: usize = 0;
    proof {
        assert(text@.take(0) =~= Seq::<char>::empty());
        assert(r@.map_values(|l: &str| l@) =~= split_at_newlines(text@.take(0)).drop_last());
        assert(text@.subrange(0, 0) =~= Seq::<char>::empty());
    }
    while i < n
        invariant
            n == text@.len(),
            start <= i <= n,
            r@.map_values(|l: &str| l@) == split_at_newlines(text@.take(i as int)).drop_last(),
            split_at_newlines(text@.take(i as int)).last() == text@.subrange(start as int, i as int),
            i > 0 ==> (start == i <==> text@[i - 1] == '\n'),
        decreases n - i,
    {
        let c = text.get_char(i);
        let ghost prev = split_at_newlines(text@.take(i as int));
        proof {
            lemma_split_nonempty(text@.take(i as int));
            assert(text@.take(i + 1).drop_last() =~= text@.take(i as int));
        }
        if c == '\n' {
            let ghost before = r@.map_values(|l: &str| l@);
            let line = text.substring_char(start, i);
            r.push(line);
            start = i + 1;
            proof {
                assert(r@.map_values(|l: &str| l@) =~= before.push(line@));
                assert(prev =~= prev.drop_last().push(prev.last()));
                assert(r@.map_values(|l: &str| l@) =~= prev);
                assert(split_at_newlines(text@.take(i + 1)) == prev.push(Seq::empty()));
                assert(split_at_newlines(text@.take(i + 1)).drop_last() =~= prev);
                assert(text@.subrange(i + 1, i + 1) =~= Seq::<char>::empty());
            }
        } else {
            proof {
                let next = prev.update(prev.len() - 1, prev.last().push(c));
                assert(split_at_newlines(text@.take(i + 1)) == next);
                assert(next.drop_last() =~= prev.drop_last());
                assert(text@.subrange(start as int, i + 1) =~= text@.subrange(start as int, i as int).push(c));
            }
        }
        i = i + 1;
    }
    proof {
        assert(text@.take(n as int) =~= text@);
        lemma_split_nonempty(text@);
    }
    if start < n {
        let ghost before = r@.map_values(|l: &str| l@);
        let line = text.substring_char(start, n);
        r.push(line);
        proof {
            let sp = split_at_newlines(text@);
            assert(r@.map_values(|l: &str| l@) =~= before.push(line@));
            assert(sp =~= sp.drop_last().push(sp.last()));
        }
    }
    r
}

/// Appends the quoted lines, separated by four spaces.
fn append_joined_quoted(out: &mut String, ls: &Vec<&str>)
    ensures
        final(out)@ == old(out)@ + joined_quoted(ls@.map_values(|l: &str| l@)),
{
    let ghost start = out@;
    let ghost views = ls@.map_values(|l: &str| l@);
    let mut i: usize = 0;
    while i < ls.len()
        invariant
            i <= ls@.len(),
            views == ls@.map_values(|l: &str| l@),
            out@ == start + joined_quoted(views.take(i as int)),
        decreases ls@.len() - i,
    {
        proof {
            assert(views.take(i + 1).drop_last() =~= views.take(i as int));
        }
        if i > 0 {
            out.append("    ");
        }
        out.append("\"");
        out.append(ls[i]);
        out.append("\"\n");
        i = i + 1;
    }
    proof {
        assert(views.take(ls@.len() as int) =~= views);
    }
}

/// Appends each line of `text` as a string literal, as `quoted_lines` says.
fn append_quoted_lines(out: &mut String, text: &str)
    ensures
        final(out)@ == old(out)@ + quoted_lines(text@),
{
    let ls = text_lines(text);
    append_joined_quoted(out, &ls);
}

/// The PTX program for `body`: an entry point `run` with one 64-bit address
/// parameter per argument, in order, whose addresses are loaded into
/// registers `<name>_addr` before the body runs.
pub fn prepare_direct_source(header: &str, args: &Vec<&str>, body: &str) -> (r: String)
    ensures
        r@ == direct_source(header@, arg_names(args@), body@),
{
    let mut s = String::from_str(header);
    s.append("\n");
    s.append(".entry run(");
    append_joined(&mut s, args, ".param .u64 ", "");
    s.append(")");
    s.append("\n{\n");
    append_ptx_loads(&mut s, args);
    s.append("\n");
    s.append(body);
    s.append("\nret;\n}");
    s
}

/// The CUDA program for `body`: a kernel `run` with one pointer parameter per
/// argument, whose only statement is an inline assembly block holding the
/// address bindings and the escaped body, one string literal per line, with
/// each pointer bound as a 64-bit register operand in the same order.
pub fn prepare_compiled_source(args: &Vec<&str>, body: &str) -> (r: String)
    ensures
        r@ == compiled_source(arg_names(args@), body@),
{
    let mut s = String::from_str("extern \"C\" __global__ void run(");
    append_joined(&mut s, args, "unsigned long long * ", "");
    s.append(")");
    s.append(" {\n");
    s.append("asm(");
    let mut text = String::new();
    append_inline_loads(&mut text, args);
    text.append("\n");
    append_escaped(&mut text, body);
    append_quoted_lines(&mut s, text.as_str());
    s.append("    :: ");
    append_joined(&mut s, args, "\"l\"(", ")");
    s.append(");");
    s.append("\n}");
    s
}

} // verus!
