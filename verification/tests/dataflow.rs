use buguc::ir::{IrFunc, IrProg, IrStmt};
use buguc::ir_handle::dataflow::{allocatable, basic_blocks, dataflow};
use buguc::ir_handle::op;
use buguc::symbols::SymTab;

fn s(x: &str) -> String {
    x.to_string()
}

#[test]
fn virtual_registers_become_temporaries() {
    let p = IrProg {
        funcs: vec![IrFunc {
            name: s("f"),
            params: vec![],
            stmts: vec![
                IrStmt::Ldc(1, s("v0")),
                IrStmt::Ldc(2, s("v1")),
                IrStmt::Sub(s("v1"), s("v0"), s("v2")),
                IrStmt::Neg(s("v2"), s("v3")),
                IrStmt::Ret(s("v3")),
            ],
        }],
        global_vars: vec![IrStmt::DeclGlobal(s("g"), 3)],
    };
    let mut t = SymTab::init();
    let q = op(&p, &mut t);
    assert_eq!(
        format!("{:?}", q),
        "IrProg { funcs: [IrFunc { name: \"f\", params: [], stmts: [Ldc(1, \"t0\"), Ldc(2, \"t1\"), Sub(\"t1\", \"t0\", \"t2\"), Neg(\"t2\", \"t3\"), Ret(\"t3\")] }], global_vars: [DeclGlobal(\"g\", 3)] }"
    );
}

#[test]
fn eleven_values_exhaust_the_temporaries() {
    let mut stmts = Vec::new();
    for i in 0..11 {
        stmts.push(IrStmt::Ldc(i, format!("v{}", i)));
    }
    let p = IrProg { funcs: vec![IrFunc { name: s("f"), params: vec![], stmts }], global_vars: vec![] };
    let t = SymTab::init();
    assert!(!allocatable(&p, &t));
}

#[test]
fn ten_values_fit() {
    let mut stmts = Vec::new();
    for i in 0..10 {
        stmts.push(IrStmt::Ldc(i, format!("v{}", i)));
    }
    let p = IrProg { funcs: vec![IrFunc { name: s("f"), params: vec![], stmts }], global_vars: vec![] };
    let mut t = SymTab::init();
    let q = dataflow(&p, &mut t);
    assert_eq!(format!("{:?}", q.funcs[0].stmts[9]), "Ldc(9, \"t9\")");
}

#[test]
fn parameters_follow_the_statements() {
    let p = IrProg {
        funcs: vec![IrFunc {
            name: s("f"),
            params: vec![IrStmt::Param(vec![1, 2], s("a"), s("f"))],
            stmts: vec![IrStmt::Ldc(1, s("v0")), IrStmt::Ret(s("v0"))],
        }],
        global_vars: vec![],
    };
    let mut t = SymTab::init();
    let q = op(&p, &mut t);
    assert_eq!(
        format!("{:?}", q.funcs[0]),
        "IrFunc { name: \"f\", params: [Param([1, 2], \"a\", \"f\")], stmts: [Ldc(1, \"t0\"), Ret(\"t0\"), Param([1, 2], \"a\", \"f\")] }"
    );
}

#[test]
fn basic_blocks_cover_the_statements_in_order() {
    let stmts = vec![
        IrStmt::Ldc(1, s("t0")),
        IrStmt::Beq(s("t0"), s("L1")),
        IrStmt::Ldc(2, s("t1")),
        IrStmt::Jmp(s("L2")),
        IrStmt::Label(s("L1")),
        IrStmt::Ret(s("t1")),
    ];
    let blocks = basic_blocks(&stmts);
    let mut all = Vec::new();
    for b in &blocks {
        for x in &b.stmts {
            all.push(format!("{:?}", x));
        }
    }
    let orig: Vec<String> = stmts.iter().map(|x| format!("{:?}", x)).collect();
    assert_eq!(all, orig);
    assert_eq!(blocks.len(), 3);
    assert_eq!(blocks[0].stmts.len(), 2);
    assert_eq!(blocks[1].stmts.len(), 2);
    assert_eq!(blocks[2].stmts.len(), 2);
    assert!(blocks.iter().all(|b| b.edges.is_empty()));
}

#[test]
fn no_statements_no_blocks() {
    let stmts: Vec<IrStmt> = vec![];
    let blocks = basic_blocks(&stmts);
    assert!(blocks.is_empty());
}

#[test]
fn a_return_ends_its_block() {
    let stmts = vec![IrStmt::Ldc(1, s("t0")), IrStmt::Ret(s("t0")), IrStmt::Ldc(2, s("t1"))];
    let blocks = basic_blocks(&stmts);
    assert_eq!(format!("{:?}", blocks[0].stmts), "[Ldc(1, \"t0\"), Ret(\"t0\")]");
    assert_eq!(format!("{:?}", blocks[1].stmts), "[Ldc(2, \"t1\")]");
    assert_eq!(blocks.len(), 2);
}

#[test]
fn a_label_begins_a_block() {
    let stmts = vec![
        IrStmt::Label(s("L2")),
        IrStmt::Label(s("L3")),
        IrStmt::Ldc(0, s("t0")),
        IrStmt::Label(s("L1")),
        IrStmt::Ret(s("t0")),
    ];
    let blocks = basic_blocks(&stmts);
    let lens: Vec<usize> = blocks.iter().map(|b| b.stmts.len()).collect();
    assert_eq!(lens, vec![1, 2, 2]);
}

#[test]
fn op_is_the_dataflow_pass() {
    let p = IrProg {
        funcs: vec![IrFunc {
            name: s("f"),
            params: vec![],
            stmts: vec![IrStmt::Ldc(1, s("v0")), IrStmt::Ldc(2, s("v1")), IrStmt::Add(s("v1"), s("v0"), s("v2")), IrStmt::Ret(s("v2"))],
        }],
        global_vars: vec![],
    };
    let mut t1 = SymTab::init();
    let mut t2 = SymTab::init();
    let a = op(&p, &mut t1);
    let b = dataflow(&p, &mut t2);
    assert_eq!(format!("{:?}", a), format!("{:?}", b));
}
