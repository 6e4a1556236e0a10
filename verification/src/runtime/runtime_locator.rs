//! Places in running code, whatever its language.
use vstd::prelude::*;
use vstd::string::*;

use crate::json;
use crate::text;

verus! {

broadcast use vstd::string::group_string_axioms;

/// A place in a source file, before or after a source map.
#[derive(Debug, PartialEq, Eq)]
pub struct GeneratedLocation {
    pub file: String,
    pub line: u32,
    pub column: u32,
}

/// A frame or event of some language. Each family of languages has its own fields.
#[derive(Debug, PartialEq, Eq)]
pub enum RuntimeLocator {
    /// A frame of native code.
    Native {
        binary: String,
        build_id: String,
        address_offset: String,
        symbol: String,
        file: String,
        line: u32,
        column: u32,
    },
    /// A frame of Python code.
    Python { module: String, qualname: String, file: String, line: u32 },
    /// A frame on the Java virtual machine.
    Jvm { class: String, method: String, descriptor: String, file: String, line: u32 },
    /// A .NET frame.
    DotNet {
        assembly: String,
        declaring_type: String,
        method: String,
        file: String,
        line: u32,
    },
    /// A JavaScript or TypeScript frame, with what its source map says.
    JsTs { generated: GeneratedLocation, original: GeneratedLocation, function: String },
}

impl Clone for GeneratedLocation {
    fn clone(&self) -> (r: Self)
        ensures
            r == *self,
    {
        GeneratedLocation { file: self.file.clone(), line: self.line, column: self.column }
    }
}

impl Clone for RuntimeLocator {
    fn clone(&self) -> (r: Self)
        ensures
            r == *self,
    {
        match self {
            RuntimeLocator::Native {
                binary,
                build_id,
                address_offset,
                symbol,
                file,
                line,
                column,
            } => RuntimeLocator::Native {
                binary: binary.clone(),
                build_id: build_id.clone(),
                address_offset: address_offset.clone(),
                symbol: symbol.clone(),
                file: file.clone(),
                line: *line,
                column: *column,
            },
            RuntimeLocator::Python { module, qualname, file, line } => RuntimeLocator::Python {
                module: module.clone(),
                qualname: qualname.clone(),
                file: file.clone(),
                line: *line,
            },
            RuntimeLocator::Jvm { class, method, descriptor, file, line } => RuntimeLocator::Jvm {
                class: class.clone(),
                method: method.clone(),
                descriptor: descriptor.clone(),
                file: file.clone(),
                line: *line,
            },
            RuntimeLocator::DotNet { assembly, declaring_type, method, file, line } => {
                RuntimeLocator::DotNet {
                    assembly: assembly.clone(),
                    declaring_type: declaring_type.clone(),
                    method: method.clone(),
                    file: file.clone(),
                    line: *line,
                }
            },
            RuntimeLocator::JsTs { generated, original, function } => RuntimeLocator::JsTs {
                generated: generated.clone(),
                original: original.clone(),
                function: function.clone(),
            },
        }
    }
}

/// A field of a record, shown with its name.
pub open spec fn field_shown(name: Seq<char>, value: Seq<char>) -> Seq<char> {
    name + ": "@ + value
}

/// A record, shown with its name and its fields.
pub open spec fn record_shown(name: Seq<char>, fields: Seq<Seq<char>>) -> Seq<char> {
    name + " { "@ + text::joined(fields, ", "@) + " }"@
}

impl GeneratedLocation {
    /// The location, shown with its fields.
    pub open spec fn shown(self) -> Seq<char> {
        record_shown(
            "GeneratedLocation"@,
            seq![
                field_shown("file"@, json::debug_quoted(self.file@)),
                field_shown("line"@, text::decimal(self.line as nat)),
                field_shown("column"@, text::decimal(self.column as nat)),
            ],
        )
    }

    /// Shows the location with its fields.
    pub fn show(&self) -> (r: String)
        ensures
            r@ == self.shown(),
    {
        let fields = vec![
            text_field("file", &self.file),
            number_field("line", self.line),
            number_field("column", self.column),
        ];
        let r = record("GeneratedLocation", &fields);
        assert(text::texts(fields@) =~= seq![
            field_shown("file"@, json::debug_quoted(self.file@)),
            field_shown("line"@, text::decimal(self.line as nat)),
            field_shown("column"@, text::decimal(self.column as nat)),
        ]);
        r
    }
}

/// Shows a field that holds a text.
fn text_field(name: &str, value: &String) -> (r: String)
    ensures
        r@ == field_shown(name@, json::debug_quoted(value@)),
{
    let mut r = name.to_owned();
    r.append(": ");
    r.append(json::quote_debug(value.as_str()).as_str());
    r
}

/// Shows a field that holds a number.
fn number_field(name: &str, value: u32) -> (r: String)
    ensures
        r@ == field_shown(name@, text::decimal(value as nat)),
{
    let mut r = name.to_owned();
    r.append(": ");
    r.append(text::decimal_text(value as u64).as_str());
    r
}

/// Shows a field that holds a location.
fn place_field(name: &str, value: &GeneratedLocation) -> (r: String)
    ensures
        r@ == field_shown(name@, value.shown()),
{
    let mut r = name.to_owned();
    r.append(": ");
    r.append(value.show().as_str());
    r
}

/// Shows a record.
fn record(name: &str, fields: &Vec<String>) -> (r: String)
    ensures
        r@ == record_shown(name@, text::texts(fields@)),
{
    let mut r = name.to_owned();
    r.append(" { ");
    r.append(text::join(fields, ", ").as_str());
    r.append(" }");
    r
}

impl RuntimeLocator {
    /// The file of the frame; of generated code, the generated file.
    pub open spec fn place(self) -> (Seq<char>, u32) {
        match self {
            RuntimeLocator::Native { file, line, .. } => (file@, line),
            RuntimeLocator::Python { file, line, .. } => (file@, line),
            RuntimeLocator::Jvm { file, line, .. } => (file@, line),
            RuntimeLocator::DotNet { file, line, .. } => (file@, line),
            RuntimeLocator::JsTs { generated, .. } => (generated.file@, generated.line),
        }
    }

    /// The file of the frame. Every frame has one.
    pub fn file(&self) -> (r: Option<&str>)
        ensures
            r matches Some(f) && f@ == self.place().0,
    {
        match self {
            RuntimeLocator::Native { file, .. } => Some(file.as_str()),
            RuntimeLocator::Python { file, .. } => Some(file.as_str()),
            RuntimeLocator::Jvm { file, .. } => Some(file.as_str()),
            RuntimeLocator::DotNet { file, .. } => Some(file.as_str()),
            RuntimeLocator::JsTs { generated, .. } => Some(generated.file.as_str()),
        }
    }

    /// The line of the frame. Every frame has one.
    pub fn line(&self) -> (r: Option<u32>)
        ensures
            r == Some(self.place().1),
    {
        match self {
            RuntimeLocator::Native { line, .. } => Some(*line),
            RuntimeLocator::Python { line, .. } => Some(*line),
            RuntimeLocator::Jvm { line, .. } => Some(*line),
            RuntimeLocator::DotNet { line, .. } => Some(*line),
            RuntimeLocator::JsTs { generated, .. } => Some(generated.line),
        }
    }

    /// The name of the family of languages.
    pub open spec fn family(self) -> Seq<char> {
        match self {
            RuntimeLocator::Native { .. } => "Native"@,
            RuntimeLocator::Python { .. } => "Python"@,
            RuntimeLocator::Jvm { .. } => "Jvm"@,
            RuntimeLocator::DotNet { .. } => "DotNet"@,
            RuntimeLocator::JsTs { .. } => "JsTs"@,
        }
    }

    /// The fields, shown one by one.
    pub open spec fn fields_shown(self) -> Seq<Seq<char>> {
        match self {
            RuntimeLocator::Native {
                binary,
                build_id,
                address_offset,
                symbol,
                file,
                line,
                column,
            } => seq![
                field_shown("binary"@, json::debug_quoted(binary@)),
                field_shown("build_id"@, json::debug_quoted(build_id@)),
                field_shown("address_offset"@, json::debug_quoted(address_offset@)),
                field_shown("symbol"@, json::debug_quoted(symbol@)),
                field_shown("file"@, json::debug_quoted(file@)),
                field_shown("line"@, text::decimal(line as nat)),
                field_shown("column"@, text::decimal(column as nat)),
            ],
            RuntimeLocator::Python { module, qualname, file, line } => seq![
                field_shown("module"@, json::debug_quoted(module@)),
                field_shown("qualname"@, json::debug_quoted(qualname@)),
                field_shown("file"@, json::debug_quoted(file@)),
                field_shown("line"@, text::decimal(line as nat)),
            ],
            RuntimeLocator::Jvm { class, method, descriptor, file, line } => seq![
                field_shown("class"@, json::debug_quoted(class@)),
                field_shown("method"@, json::debug_quoted(method@)),
                field_shown("descriptor"@, json::debug_quoted(descriptor@)),
                field_shown("file"@, json::debug_quoted(file@)),
                field_shown("line"@, text::decimal(line as nat)),
            ],
            RuntimeLocator::DotNet { assembly, declaring_type, method, file, line } => seq![
                field_shown("assembly"@, json::debug_quoted(assembly@)),
                field_shown("type_name"@, json::debug_quoted(declaring_type@)),
                field_shown("method"@, json::debug_quoted(method@)),
                field_shown("file"@, json::debug_quoted(file@)),
                field_shown("line"@, text::decimal(line as nat)),
            ],
            RuntimeLocator::JsTs { generated, original, function } => seq![
                field_shown("generated"@, generated.shown()),
                field_shown("original"@, original.shown()),
                field_shown("function"@, json::debug_quoted(function@)),
            ],
        }
    }

    /// The locator, shown with its fields.
    pub open spec fn shown(self) -> Seq<char> {
        record_shown(self.family(), self.fields_shown())
    }

    /// Shows the locator with its fields.
    pub fn show(&self) -> (r: String)
        ensures
            r@ == self.shown(),
    {
        let (name, fields) = match self {
            RuntimeLocator::Native {
                binary,
                build_id,
                address_offset,
                symbol,
                file,
                line,
                column,
            } => (
                "Native",
                vec![
                    text_field("binary", binary),
                    text_field("build_id", build_id),
                    text_field("address_offset", address_offset),
                    text_field("symbol", symbol),
                    text_field("file", file),
                    number_field("line", *line),
                    number_field("column", *column),
                ],
            ),
            RuntimeLocator::Python { module, qualname, file, line } => (
                "Python",
                vec![
                    text_field("module", module),
                    text_field("qualname", qualname),
                    text_field("file", file),
                    number_field("line", *line),
                ],
            ),
            RuntimeLocator::Jvm { class, method, descriptor, file, line } => (
                "Jvm",
                vec![
                    text_field("class", class),
                    text_field("method", method),
                    text_field("descriptor", descriptor),
                    text_field("file", file),
                    number_field("line", *line),
                ],
            ),
            RuntimeLocator::DotNet { assembly, declaring_type, method, file, line } => (
                "DotNet",
                vec![
                    text_field("assembly", assembly),
                    text_field("type_name", declaring_type),
                    text_field("method", method),
                    text_field("file", file),
                    number_field("line", *line),
                ],
            ),
            RuntimeLocator::JsTs { generated, original, function } => (
                "JsTs",
                vec![
                    place_field("generated", generated),
                    place_field("original", original),
                    text_field("function", function),
                ],
            ),
        };
        assert(text::texts(fields@) =~= self.fields_shown());
        record(name, &fields)
    }
}


/// A locator points to the file and line that it names; one of generated code to those of the
/// generated code.
pub proof fn law_places(l: RuntimeLocator, file: Option<&str>, line: Option<u32>)
    requires
        call_ensures(RuntimeLocator::file, (&l,), file),
        call_ensures(RuntimeLocator::line, (&l,), line),
    ensures
        file is Some && line is Some,
        l is Native ==> (file->0)@ == l->Native_file@ && line->0 == l->Native_line,
        l is Python ==> (file->0)@ == l->Python_file@ && line->0 == l->Python_line,
        l is Jvm ==> (file->0)@ == l->Jvm_file@ && line->0 == l->Jvm_line,
        l is DotNet ==> (file->0)@ == l->DotNet_file@ && line->0 == l->DotNet_line,
        l is JsTs ==> (file->0)@ == (l->generated).file@ && line->0 == (l->generated).line,
{
}

/// A locator is shown as a record: the name of its family, and each field by name and value, in
/// order.
pub proof fn law_shown_locators(l: RuntimeLocator)
    ensures
        l.shown() == l.family() + " { "@ + text::joined(l.fields_shown(), ", "@) + " }"@,
        l is Native ==> l.family() == "Native"@ && l.fields_shown().len() == 7,
        l is Python ==> l.family() == "Python"@ && l.fields_shown().len() == 4,
        l is Jvm ==> l.family() == "Jvm"@ && l.fields_shown().len() == 5,
        l is DotNet ==> l.family() == "DotNet"@ && l.fields_shown().len() == 5,
        l is JsTs ==> l.family() == "JsTs"@ && l.fields_shown().len() == 3,
        l is Native ==> l.fields_shown() == seq![
            "binary"@ + ": "@ + json::debug_quoted(l->binary@),
            "build_id"@ + ": "@ + json::debug_quoted(l->build_id@),
            "address_offset"@ + ": "@ + json::debug_quoted(l->address_offset@),
            "symbol"@ + ": "@ + json::debug_quoted(l->symbol@),
            "file"@ + ": "@ + json::debug_quoted(l->Native_file@),
            "line"@ + ": "@ + text::decimal(l->Native_line as nat),
            "column"@ + ": "@ + text::decimal(l->column as nat),
        ],
        l is Python ==> l.fields_shown() == seq![
            "module"@ + ": "@ + json::debug_quoted(l->module@),
            "qualname"@ + ": "@ + json::debug_quoted(l->qualname@),
            "file"@ + ": "@ + json::debug_quoted(l->Python_file@),
            "line"@ + ": "@ + text::decimal(l->Python_line as nat),
        ],
        l is Jvm ==> l.fields_shown() == seq![
            "class"@ + ": "@ + json::debug_quoted(l->class@),
            "method"@ + ": "@ + json::debug_quoted(l->Jvm_method@),
            "descriptor"@ + ": "@ + json::debug_quoted(l->descriptor@),
            "file"@ + ": "@ + json::debug_quoted(l->Jvm_file@),
            "line"@ + ": "@ + text::decimal(l->Jvm_line as nat),
        ],
        l is DotNet ==> l.fields_shown() == seq![
            "assembly"@ + ": "@ + json::debug_quoted(l->assembly@),
            "type_name"@ + ": "@ + json::debug_quoted(l->declaring_type@),
            "method"@ + ": "@ + json::debug_quoted(l->DotNet_method@),
            "file"@ + ": "@ + json::debug_quoted(l->DotNet_file@),
            "line"@ + ": "@ + text::decimal(l->DotNet_line as nat),
        ],
        l is JsTs ==> l.fields_shown() == seq![
            "generated"@ + ": "@ + l->generated.shown(),
            "original"@ + ": "@ + l->original.shown(),
            "function"@ + ": "@ + json::debug_quoted(l->function@),
        ],
{
}

/// A place in generated code is shown as a record of file, line and column.
pub proof fn law_shown_places(g: GeneratedLocation)
    ensures
        g.shown() == "GeneratedLocation"@ + " { "@ + text::joined(
            seq![
                "file"@ + ": "@ + json::debug_quoted(g.file@),
                "line"@ + ": "@ + text::decimal(g.line as nat),
                "column"@ + ": "@ + text::decimal(g.column as nat),
            ],
            ", "@,
        ) + " }"@,
{
    assert(seq![
        field_shown("file"@, json::debug_quoted(g.file@)),
        field_shown("line"@, text::decimal(g.line as nat)),
        field_shown("column"@, text::decimal(g.column as nat)),
    ] =~= seq![
        "file"@ + ": "@ + json::debug_quoted(g.file@),
        "line"@ + ": "@ + text::decimal(g.line as nat),
        "column"@ + ": "@ + text::decimal(g.column as nat),
    ]);
}

} // verus!
