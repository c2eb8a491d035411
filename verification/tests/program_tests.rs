use ul_mir::ir::{Context, PtrSize};
use ul_mir::output::dot::{DotOutput, function::DotFormatter};
use ul_mir::programs::{build_fib, build_hello};

#[test]
fn test_build_hello_program() {
    let mut ctx = Context::new(PtrSize::_64Bit);
    let (printf_fun, main_fn) = build_hello(&mut ctx);
    assert_ne!(printf_fun, main_fn);
    assert!(ctx.functions[&printf_fun].get_function_data().is_none());
    assert!(ctx.verify_fun(main_fn));
    assert_eq!(DotFormatter::new(&ctx, main_fn).to_dot(), "digraph \"main\" {\n  labeljust=l\n  node [shape=box, style=filled, fillcolor=lightblue, fontname=\"monospace\"];\n  edge [fontname=\"monospace\"];\n  rankdir=TB;\n  bb0 [label=\"bb0\\l%2 = call printf(\\\"Hello,\\\\ World\\\\ !\\\\n\\\")\\l---\\nret 0\" style=filled, fillcolor=lightgreen];\n}");
}

#[test]
fn test_build_fib_program() {
    let mut ctx = Context::new(PtrSize::_64Bit);
    let fib = build_fib(&mut ctx);
    assert!(ctx.verify_fun(fib));
    let f = &ctx.functions[&fib];
    let data = f.get_function_data().unwrap();
    assert_eq!(data.blocks.len(), 4);
    assert_eq!(data.locals.len(), 5);
    let dot = DotFormatter::new(&ctx, fib).to_dot();
    let lines: Vec<&str> = dot.lines().collect();
    assert!(lines.contains(&"  bb0 [label=\"bb0\\l*%2 = 1\\l*%3 = 1\\l*%1 = 2\\l---\\ngoto bb1\" style=filled, fillcolor=lightgreen];"));
    assert!(lines.contains(&"  bb1 [label=\"bb1\\l%4 = (copy(*%1) < copy(%0))\\l---\\nbr copy(%4)\"];"));
    assert!(lines.contains(&"  bb2 [label=\"bb2\\l*%2 = (copy(*%2) + copy(*%3))\\l*%3 = (copy(*%2) - copy(*%3))\\l*%1 = (copy(*%1) + 1)\\l---\\ngoto bb1\"];"));
    assert!(lines.contains(&"  bb3 [label=\"bb3\\l---\\nret copy(*%2)\"];"));
    assert!(lines.contains(&"  bb1 -> bb2 [label=\"true\"];"));
    assert!(lines.contains(&"  bb1 -> bb3 [label=\"false\"];"));
    assert!(lines.contains(&"  bb2 -> bb1;"));
    assert!(lines.contains(&"  bb0 -> bb1;"));
    let map = f.build_lifetime_map();
    assert_eq!(map.len(), 4);
}
