//! The fixed pieces of text that the grammar matches, and the errors that a
//! failed match reports.

use vstd::prelude::*;
use vstd::string::StringSliceAdditionalSpecFns;

verus! {

/// A literal piece of source text that the grammar expects somewhere.
#[derive(Debug, Clone, Copy, PartialEq, Eq, Structural)]
pub enum Token {
    CommentStart,
    Pub,
    Fn,
    LessThan,
    GreaterThan,
    LeftParen,
    RightParen,
    Ampersand,
    Mut,
    SelfValue,
    Comma,
    Colon,
    Arrow,
    Where,
    LeftBrace,
    RightBrace,
    Semicolon,
    Bang,
    Let,
    Equals,
    Loop,
    True,
    DoubleColon,
    Enum,
    Trait,
    EmptyBraces,
    Impl,
    For,
    Hash,
    LeftBracket,
    RightBracket,
    Extern,
    Crate,
    Type,
    Apostrophe,
    Space,
    Tab,
    CarriageReturn,
    Newline,
}

/// Why a parser failed at a point.
#[derive(Debug, Clone, Copy, PartialEq, Eq, Structural)]
pub enum ParseError {
    /// The text at the point does not start with this token.
    Literal(Token),
    /// No identifier starts at the point.
    IdentNotFound,
}

/// The bytes of a token.
pub open spec fn token_bytes(t: Token) -> Seq<u8> {
    match t {
        Token::CommentStart => seq!['/' as u8, '/' as u8],
        Token::Pub => seq!['p' as u8, 'u' as u8, 'b' as u8],
        Token::Fn => seq!['f' as u8, 'n' as u8],
        Token::LessThan => seq!['<' as u8],
        Token::GreaterThan => seq!['>' as u8],
        Token::LeftParen => seq!['(' as u8],
        Token::RightParen => seq![')' as u8],
        Token::Ampersand => seq!['&' as u8],
        Token::Mut => seq!['m' as u8, 'u' as u8, 't' as u8],
        Token::SelfValue => seq!['s' as u8, 'e' as u8, 'l' as u8, 'f' as u8],
        Token::Comma => seq![',' as u8],
        Token::Colon => seq![':' as u8],
        Token::Arrow => seq!['-' as u8, '>' as u8],
        Token::Where => seq!['w' as u8, 'h' as u8, 'e' as u8, 'r' as u8, 'e' as u8],
        Token::LeftBrace => seq!['{' as u8],
        Token::RightBrace => seq!['}' as u8],
        Token::Semicolon => seq![';' as u8],
        Token::Bang => seq!['!' as u8],
        Token::Let => seq!['l' as u8, 'e' as u8, 't' as u8],
        Token::Equals => seq!['=' as u8],
        Token::Loop => seq!['l' as u8, 'o' as u8, 'o' as u8, 'p' as u8],
        Token::True => seq!['t' as u8, 'r' as u8, 'u' as u8, 'e' as u8],
        Token::DoubleColon => seq![':' as u8, ':' as u8],
        Token::Enum => seq!['e' as u8, 'n' as u8, 'u' as u8, 'm' as u8],
        Token::Trait => seq!['t' as u8, 'r' as u8, 'a' as u8, 'i' as u8, 't' as u8],
        Token::EmptyBraces => seq!['{' as u8, '}' as u8],
        Token::Impl => seq!['i' as u8, 'm' as u8, 'p' as u8, 'l' as u8],
        Token::For => seq!['f' as u8, 'o' as u8, 'r' as u8],
        Token::Hash => seq!['#' as u8],
        Token::LeftBracket => seq!['[' as u8],
        Token::RightBracket => seq![']' as u8],
        Token::Extern => seq!['e' as u8, 'x' as u8, 't' as u8, 'e' as u8, 'r' as u8, 'n' as u8],
        Token::Crate => seq!['c' as u8, 'r' as u8, 'a' as u8, 't' as u8, 'e' as u8],
        Token::Type => seq!['t' as u8, 'y' as u8, 'p' as u8, 'e' as u8],
        Token::Apostrophe => seq!['\'' as u8],
        Token::Space => seq![' ' as u8],
        Token::Tab => seq!['\t' as u8],
        Token::CarriageReturn => seq!['\r' as u8],
        Token::Newline => seq!['\n' as u8],
    }
}

impl Token {
    /// The token as source text.
    pub fn text(self) -> (r: &'static str)
        ensures
            r.spec_bytes() == token_bytes(self),
    {
        broadcast use vstd::string::is_ascii_spec_bytes;

        match self {
            Token::CommentStart => {
                proof {
                    reveal_strlit("//");
                }
                assert(vstd::string::is_ascii("//"));
                "//"
            },
            Token::Pub => {
                proof {
                    reveal_strlit("pub");
                }
                assert(vstd::string::is_ascii("pub"));
                "pub"
            },
            Token::Fn => {
                proof {
                    reveal_strlit("fn");
                }
                assert(vstd::string::is_ascii("fn"));
                "fn"
            },
            Token::LessThan => {
                proof {
                    reveal_strlit("<");
                }
                assert(vstd::string::is_ascii("<"));
                "<"
            },
            Token::GreaterThan => {
                proof {
                    reveal_strlit(">");
                }
                assert(vstd::string::is_ascii(">"));
                ">"
            },
            Token::LeftParen => {
                proof {
                    reveal_strlit("(");
                }
                assert(vstd::string::is_ascii("("));
                "("
            },
            Token::RightParen => {
                proof {
                    reveal_strlit(")");
                }
                assert(vstd::string::is_ascii(")"));
                ")"
            },
            Token::Ampersand => {
                proof {
                    reveal_strlit("&");
                }
                assert(vstd::string::is_ascii("&"));
                "&"
            },
            Token::Mut => {
                proof {
                    reveal_strlit("mut");
                }
                assert(vstd::string::is_ascii("mut"));
                "mut"
            },
            Token::SelfValue => {
                proof {
                    reveal_strlit("self");
                }
                assert(vstd::string::is_ascii("self"));
                "self"
            },
            Token::Comma => {
                proof {
                    reveal_strlit(",");
                }
                assert(vstd::string::is_ascii(","));
                ","
            },
            Token::Colon => {
                proof {
                    reveal_strlit(":");
                }
                assert(vstd::string::is_ascii(":"));
                ":"
            },
            Token::Arrow => {
                proof {
                    reveal_strlit("->");
                }
                assert(vstd::string::is_ascii("->"));
                "->"
            },
            Token::Where => {
                proof {
                    reveal_strlit("where");
                }
                assert(vstd::string::is_ascii("where"));
                "where"
            },
            Token::LeftBrace => {
                proof {
                    reveal_strlit("{");
                }
                assert(vstd::string::is_ascii("{"));
                "{"
            },
            Token::RightBrace => {
                proof {
                    reveal_strlit("}");
                }
                assert(vstd::string::is_ascii("}"));
                "}"
            },
            Token::Semicolon => {
                proof {
                    reveal_strlit(";");
                }
                assert(vstd::string::is_ascii(";"));
                ";"
            },
            Token::Bang => {
                proof {
                    reveal_strlit("!");
                }
                assert(vstd::string::is_ascii("!"));
                "!"
            },
            Token::Let => {
                proof {
                    reveal_strlit("let");
                }
                assert(vstd::string::is_ascii("let"));
                "let"
            },
            Token::Equals => {
                proof {
                    reveal_strlit("=");
                }
                assert(vstd::string::is_ascii("="));
                "="
            },
            Token::Loop => {
                proof {
                    reveal_strlit("loop");
                }
                assert(vstd::string::is_ascii("loop"));
                "loop"
            },
            Token::True => {
                proof {
                    reveal_strlit("true");
                }
                assert(vstd::string::is_ascii("true"));
                "true"
            },
            Token::DoubleColon => {
                proof {
                    reveal_strlit("::");
                }
                assert(vstd::string::is_ascii("::"));
                "::"
            },
            Token::Enum => {
                proof {
                    reveal_strlit("enum");
                }
                assert(vstd::string::is_ascii("enum"));
                "enum"
            },
            Token::Trait => {
                proof {
                    reveal_strlit("trait");
                }
                assert(vstd::string::is_ascii("trait"));
                "trait"
            },
            Token::EmptyBraces => {
                proof {
                    reveal_strlit("{}");
                }
                assert(vstd::string::is_ascii("{}"));
                "{}"
            },
            Token::Impl => {
                proof {
                    reveal_strlit("impl");
                }
                assert(vstd::string::is_ascii("impl"));
                "impl"
            },
            Token::For => {
                proof {
                    reveal_strlit("for");
                }
                assert(vstd::string::is_ascii("for"));
                "for"
            },
            Token::Hash => {
                proof {
                    reveal_strlit("#");
                }
                assert(vstd::string::is_ascii("#"));
                "#"
            },
            Token::LeftBracket => {
                proof {
                    reveal_strlit("[");
                }
                assert(vstd::string::is_ascii("["));
                "["
            },
            Token::RightBracket => {
                proof {
                    reveal_strlit("]");
                }
                assert(vstd::string::is_ascii("]"));
                "]"
            },
            Token::Extern => {
                proof {
                    reveal_strlit("extern");
                }
                assert(vstd::string::is_ascii("extern"));
                "extern"
            },
            Token::Crate => {
                proof {
                    reveal_strlit("crate");
                }
                assert(vstd::string::is_ascii("crate"));
                "crate"
            },
            Token::Type => {
                proof {
                    reveal_strlit("type");
                }
                assert(vstd::string::is_ascii("type"));
                "type"
            },
            Token::Apostrophe => {
                proof {
                    reveal_strlit("'");
                }
                assert(vstd::string::is_ascii("'"));
                "'"
            },
            Token::Space => {
                proof {
                    reveal_strlit(" ");
                }
                assert(vstd::string::is_ascii(" "));
                " "
            },
            Token::Tab => {
                proof {
                    reveal_strlit("\t");
                }
                assert(vstd::string::is_ascii("\t"));
                "\t"
            },
            Token::CarriageReturn => {
                proof {
                    reveal_strlit("\r");
                }
                assert(vstd::string::is_ascii("\r"));
                "\r"
            },
            Token::Newline => {
                proof {
                    reveal_strlit("\n");
                }
                assert(vstd::string::is_ascii("\n"));
                "\n"
            },
        }
    }
}

} // verus!
