use ptx_parser::body::{BodyLine, Operation, OperationKind, Register};
use ptx_parser::failure::FailureKind;
use ptx_parser::function::Function;
use ptx_parser::module::{FunctionOrGlobal, PtxParser};

const EXAMPLE_FILE: &str = ".version 7.5
.target sm_30
.address_size 64

.visible .entry _Z6kernelPiS_i
{
    .reg .f32   %f<4>;
    .reg .s32   %r<4>;
    .reg .pred  %p<3>;
    .reg .b32   %r4;
    .reg .b64   %rd<3>;

    ld.param.u64    %rd1, [__cudaparm__Z6kernelPiS_i_a];
    ld.param.u64    %rd2, [__cudaparm__Z6kernelPiS_i_b];
    ld.param.u64    %rd3, [__cudaparm__Z6kernelPiS_i_c];
    cvta.to.global.u64  %rd4, %rd1;
    cvta.to.global.u64  %rd5, %rd2;
    cvta.to.global.u64  %rd6, %rd3;
    ld.global.f32   %f1, [%rd4];
    ld.global.f32   %f2, [%rd5];
    ld.global.f32   %f3, [%rd6];
    add.f32     %f4, %f1, %f2;
    add.f32     %f4, %f4, %f3;
    st.global.f32   [%rd4], %f4;
    ret;
}
";

const KERNEL_PTX: &str = "//
// Generated by LLVM NVPTX Back-End
//

.version 6.0
.target sm_30
.address_size 64

	// .globl	square_kernel

.visible .entry square_kernel(
	.param .u64 square_kernel_param_0,
	.param .u64 square_kernel_param_1,
	.param .u32 square_kernel_param_2
)
{
	.reg .pred 	%p<2>;
	.reg .b32 	%r<6>;
	.reg .f32 	%f<3>;
	.reg .b64 	%rd<8>;

	ld.param.u32 	%r1, [square_kernel_param_2];
	mov.u32 	%r2, %tid.x;
	mov.u32 	%r3, %ctaid.x;
	mov.u32 	%r4, %ntid.x;
	mad.lo.s32 	%r5, %r3, %r4, %r2;
	setp.lt.s32 	%p1, %r5, %r1;
	@%p1 bra 	$L__BB0_2;
	bra.uni 	$L__BB0_1;
$L__BB0_2:
	ld.param.u64 	%rd3, [square_kernel_param_0];
	ld.param.u64 	%rd4, [square_kernel_param_1];
	cvta.to.global.u64 	%rd5, %rd4;
	cvta.to.global.u64 	%rd6, %rd3;
	mul.wide.s32 	%rd7, %r5, 4;
	add.s64 	%rd1, %rd5, %rd7;
	add.s64 	%rd2, %rd6, %rd7;
	ld.global.f32 	%f1, [%rd2];
	mul.rn.f32 	%f2, %f1, %f1;
	st.global.f32 	[%rd1], %f2;
$L__BB0_1:
	ret;

}
";

fn text(s: &str) -> Vec<char> {
    s.chars().collect()
}

fn show(s: &[char]) -> String {
    s.iter().collect()
}

fn functions<'a>(input: &'a [char]) -> Vec<Function<'a>> {
    let mut ptx = PtxParser::try_from(input).unwrap();
    let mut found = Vec::new();
    while let Some(item) = ptx.next() {
        if let Ok((_, item)) = item {
            if let Some(function) = item.function() {
                found.push(function);
            }
        }
    }
    found
}

fn body_lines<'a>(input: &'a [char]) -> Vec<BodyLine<'a>> {
    let mut lines = Vec::new();
    for function in functions(input) {
        println!("Function: {function:?}");
        if let Some(mut body) = function.body {
            while let Some(line) = body.next() {
                if let Ok((_, line)) = line {
                    println!("Body line: {:?}", line);
                    lines.push(line);
                }
            }
        }
    }
    lines
}

fn unknown_body_lines(input: &[char]) -> Vec<String> {
    let mut unknown = Vec::new();
    for line in body_lines(input) {
        if let BodyLine::Unknown(raw_string) = line {
            println!("Unknown line: {:?}", show(raw_string));
            unknown.push(show(raw_string));
        }
    }
    unknown
}

fn unknown_operations(input: &[char]) -> Vec<(String, String)> {
    let mut unknown = Vec::new();
    for line in body_lines(input) {
        if let Some(Operation { operation: OperationKind::Unknown(raw_string), arguments }) =
            line.operation()
        {
            println!("Unknown: {} with arguments: {}", show(raw_string), show(arguments));
            unknown.push((show(raw_string), show(arguments)));
        }
    }
    unknown
}

fn items(input: &[char]) -> (usize, usize, usize) {
    let mut ptx = PtxParser::try_from(input).unwrap();
    println!("Preamble: {:?}", &ptx.preamble);
    let (mut functions, mut globals, mut failures) = (0, 0, 0);
    while let Some(item) = ptx.next() {
        println!("{item:?}");
        match item {
            Ok((_, FunctionOrGlobal::Function(_))) => functions += 1,
            Ok((_, FunctionOrGlobal::Global(_))) => globals += 1,
            Err(_) => failures += 1,
        }
    }
    (functions, globals, failures)
}

fn check_example_body() {
    let input = text(EXAMPLE_FILE);
    let lines = body_lines(&input);
    assert_eq!(lines.len(), 18);
    let first = text(".f32   %f<4>");
    assert_eq!(lines[0], BodyLine::Register(Register { raw_string: &first }));
    let operands = text("%rd1, [__cudaparm__Z6kernelPiS_i_a]");
    assert_eq!(
        lines[5],
        BodyLine::Operation(Operation { operation: OperationKind::LdParamU64, arguments: &operands })
    );
    assert_eq!(lines[17], BodyLine::Return);
    assert_eq!(
        unknown_operations(&input),
        vec![
            ("add.f32".to_string(), "%f4, %f1, %f2".to_string()),
            ("add.f32".to_string(), "%f4, %f4, %f3".to_string()),
        ]
    );
}

fn check_kernel_body() {
    let input = text(KERNEL_PTX);
    let lines = body_lines(&input);
    assert_eq!(lines.len(), 25);
    let label = text("L__BB0_2");
    assert_eq!(lines[12], BodyLine::Label(&label));
    assert_eq!(lines[24], BodyLine::Return);
    assert!(unknown_operations(&input).is_empty());
}

#[test]
fn body_parse_body_example() {
    check_example_body();
}

#[test]
fn body_parse_body_kernel() {
    check_kernel_body();
}

#[test]
fn body_parse_unknowns_kernel() {
    let input = text(KERNEL_PTX);
    assert!(unknown_body_lines(&input).is_empty());
}

#[test]
fn mod_parse_body_example() {
    check_example_body();
}

#[test]
fn mod_parse_body_kernel() {
    check_kernel_body();
}

#[test]
fn mod_parse_unknowns_kernel() {
    let input = text(KERNEL_PTX);
    assert!(unknown_body_lines(&input).is_empty());
}

#[test]
fn ptx_file_parse_example() {
    let input = text(EXAMPLE_FILE);
    assert_eq!(items(&input), (1, 0, 0));
}

#[test]
fn ptx_file_parse_kernel() {
    let input = text(KERNEL_PTX);
    assert_eq!(items(&input), (1, 0, 0));
}

#[test]
fn mod_parse_example() {
    let input = text(EXAMPLE_FILE);
    let ptx = PtxParser::try_from(&input).unwrap();
    assert_eq!(show(ptx.preamble.version.major), "7");
    assert_eq!(show(ptx.preamble.version.minor), "5");
    assert_eq!(show(ptx.preamble.target.target), "sm_30");
    assert_eq!(show(ptx.preamble.address_size.size), "64");
    assert_eq!(items(&input), (1, 0, 0));
}

#[test]
fn mod_parse_kernel() {
    let input = text(KERNEL_PTX);
    let ptx = PtxParser::try_from(&input).unwrap();
    assert_eq!(show(ptx.preamble.version.major), "6");
    assert_eq!(show(ptx.preamble.version.minor), "0");
    let found = functions(&input);
    assert_eq!(found.len(), 1);
    assert_eq!(show(found[0].signature.name), "square_kernel");
    assert!(found[0].signature.visible && found[0].signature.entry);
    assert_eq!(items(&input), (1, 0, 0));
}

#[test]
fn body_ends_with_one_failure() {
    let input = text(EXAMPLE_FILE);
    let function = functions(&input)[0];
    let mut body = function.body.unwrap();
    let mut good = 0;
    let mut last = None;
    while let Some(line) = body.next() {
        match line {
            Ok(_) => good += 1,
            Err(e) => last = Some(e),
        }
    }
    assert_eq!(good, 18);
    let e = last.unwrap();
    assert_eq!(e.kind, FailureKind::EmptyRequiredSpan);
    assert!(e.rest.is_empty());
    assert!(body.next().is_none());
}
