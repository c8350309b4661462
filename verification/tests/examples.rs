use turtlicoscript::interpreter::Context;
use turtlicoscript::parser::parse;
use turtlicoscript::value::{Float, Host, Order};

struct Console;

impl Host for Console {
    fn float_of(&self, n: i32) -> Float {
        self.float_from_int(n)
    }

    fn sum_of(&self, a: Float, b: Float) -> Float {
        self.float_add(a, b)
    }

    fn difference_of(&self, a: Float, b: Float) -> Float {
        self.float_sub(a, b)
    }

    fn product_of(&self, a: Float, b: Float) -> Float {
        self.float_mul(a, b)
    }

    fn quotient_of(&self, a: Float, b: Float) -> Float {
        self.float_div(a, b)
    }

    fn order_of(&self, a: Float, b: Float) -> Option<Order> {
        self.float_compare(a, b)
    }

    fn float_parse(&self, text: &str) -> Option<Float> {
        text.parse::<f64>().ok().map(|x| Float { bits: x.to_bits() })
    }

    fn float_format(&self, x: Float) -> String {
        format!("{}", f64::from_bits(x.bits))
    }

    fn float_from_int(&self, n: i32) -> Float {
        Float { bits: f64::from(n).to_bits() }
    }

    fn float_add(&self, a: Float, b: Float) -> Float {
        Float { bits: (f64::from_bits(a.bits) + f64::from_bits(b.bits)).to_bits() }
    }

    fn float_sub(&self, a: Float, b: Float) -> Float {
        Float { bits: (f64::from_bits(a.bits) - f64::from_bits(b.bits)).to_bits() }
    }

    fn float_mul(&self, a: Float, b: Float) -> Float {
        Float { bits: (f64::from_bits(a.bits) * f64::from_bits(b.bits)).to_bits() }
    }

    fn float_div(&self, a: Float, b: Float) -> Float {
        Float { bits: (f64::from_bits(a.bits) / f64::from_bits(b.bits)).to_bits() }
    }

    fn float_compare(&self, a: Float, b: Float) -> Option<Order> {
        let x = f64::from_bits(a.bits);
        let y = f64::from_bits(b.bits);
        if x < y {
            Some(Order::Less)
        } else if x > y {
            Some(Order::Greater)
        } else if x == y {
            Some(Order::Equal)
        } else {
            None
        }
    }

    fn float_random(&mut self) -> Float {
        Float { bits: 0.5f64.to_bits() }
    }

    fn print(&mut self, _text: &str) {}

    fn read_line(&mut self) -> Result<String, String> {
        Err(String::from("no input"))
    }
}

fn test_example(name: &str, src: &str, output: &str) {
    let ast = match parse(src) {
        Ok(ast) => ast,
        Err(_) => panic!("Cannot parse example \"{}\"", name),
    };
    let mut context = Context::new_parent(None, Box::new(Console));
    let result = match context.eval_root(&ast) {
        Ok(value) => value.to_text(&context.host),
        Err(err) => panic!("Evaluation of example failed \"{}\": {:?}", name, err),
    };
    if output != result {
        panic!("Invalid result. Expected: \"{}\". Got: \"{}\".", output, result);
    }
}

#[test]
fn binops() {
    let src = "$res = string(10.2 / 2) + \"_\" + string(5 + 3) + \"_\" + string(3 * 4)\n\
               $res = $res + \"_\" + string(14 / 2) + \"_\" + string(10 - 3)\n\
               return $res\n";
    test_example("binops", src, "5.1_8_12_7_7");
}

#[test]
fn loop_for() {
    let src = "$out = \"\"\n\
               for $i 0 11 {\n\
               ;$out = $out + string($i) + \"_\"\n\
               }\n\
               for $i 0 11 2 {\n\
               ;$out = $out + string($i) + \"_\"\n\
               }\n\
               return $out\n";
    test_example("for", src, "0_1_2_3_4_5_6_7_8_9_10_0_2_4_6_8_10_");
}

#[test]
fn funcs() {
    let src = "$out = \"\"\n\
               fn add($a, $b) {\n\
               ;return $a + $b\n\
               }\n\
               fn show($x) {\n\
               ;$out = $out + string($x) + \"_\"\n\
               }\n\
               show(add(3, 4))\n\
               show(add(2, 3))\n\
               show(add(1, 2))\n\
               return $out\n";
    test_example("funcs", src, "7_5_3_");
}

#[test]
fn objects() {
    let src = "$obj = {\"a\": 1, \"b\": \"text\", \"c\": \"value\"}\n\
               $obj.$d = \"text_inserted\"\n\
               return string($obj.$a) + \"_\" + $obj.$b + \"_\" + $obj.$c + \"_\" + $obj.$d\n";
    test_example("objects", src, "1_text_value_text_inserted");
}

#[test]
fn padding() {
    let src = "\n\n;;   # a comment before the program\n\t return   \"1\" +\n\n   string( 1 ) + \"1\"  ;\n\n";
    test_example("padding", src, "111");
}

#[test]
fn loop_while() {
    let src = "$i = 5\n\
               $out = \"\"\n\
               while $i >= 0 {\n\
               ;$out = $out + string($i) + \"_\"\n\
               ;$i = $i - 1\n\
               }\n\
               return $out\n";
    test_example("while", src, "5_4_3_2_1_0_");
}
