//! The methods, fields and classes of a program.

use vstd::prelude::*;

use crate::text;

verus! {

/// The instructions of a method, in 16-bit words, and the size of its frame.
#[derive(Debug)]
pub struct CodeItem {
    pub registers_size: u16,
    pub ins_size: u16,
    pub instructions: Vec<u16>,
}

/// A method as it is referred to, with its code where it has any. `framework_owner` is the
/// framework class that answers for a method without code.
#[derive(Debug)]
pub struct Method {
    pub class_name: String,
    pub name: String,
    pub prototype: String,
    pub code: Option<CodeItem>,
    pub access_flags: Option<u32>,
    pub framework_owner: Option<String>,
}

#[derive(Debug)]
pub struct FieldId {
    pub class_name: String,
    pub name: String,
    pub descriptor: String,
}

#[derive(Debug)]
pub struct ClassDef {
    pub name: String,
    pub super_class: Option<String>,
}

#[derive(Debug)]
pub struct DexFile {
    pub strings: Vec<String>,
    pub types: Vec<String>,
    pub methods: Vec<Method>,
    pub fields: Vec<FieldId>,
    pub classes: Vec<ClassDef>,
}

/// What a method is looked up by.
pub struct Wanted {
    pub class_name: Seq<char>,
    pub name: Seq<char>,
    pub prototype: Option<Seq<char>>,
    pub coded: bool,
}

pub open spec fn fits(method: Method, wanted: Wanted) -> bool {
    &&& method.class_name@ == wanted.class_name
    &&& method.name@ == wanted.name
    &&& wanted.prototype is Some ==> method.prototype@ == wanted.prototype->0
    &&& wanted.coded ==> method.code is Some
}

/// The first method from an index on that fits.
pub open spec fn first_from(methods: Seq<Method>, from: nat, wanted: Wanted) -> Option<nat>
    decreases methods.len() - from,
{
    if from >= methods.len() {
        None
    } else if fits(methods[from as int], wanted) {
        Some(from)
    } else {
        first_from(methods, from + 1, wanted)
    }
}

pub open spec fn some_text(s: Option<&str>) -> Option<Seq<char>> {
    match s {
        Some(t) => Some(t@),
        None => None,
    }
}

pub open spec fn some_index(i: Option<usize>) -> Option<nat> {
    match i {
        Some(n) => Some(n as nat),
        None => None,
    }
}

pub fn method_fits(
    method: &Method,
    class_name: &str,
    name: &str,
    prototype: Option<&str>,
    coded: bool,
) -> (r: bool)
    ensures
        r == fits(
            *method,
            Wanted {
                class_name: class_name@,
                name: name@,
                prototype: some_text(prototype),
                coded,
            },
        ),
{
    if !text::same(method.class_name.as_str(), class_name) || !text::same(
        method.name.as_str(),
        name,
    ) || (coded && method.code.is_none()) {
        return false;
    }
    match prototype {
        Some(p) => text::same(method.prototype.as_str(), p),
        None => true,
    }
}

pub fn find_method(
    dex: &DexFile,
    class_name: &str,
    name: &str,
    prototype: Option<&str>,
    coded: bool,
) -> (r: Option<usize>)
    ensures
        some_index(r) == dex.first(
            Wanted {
                class_name: class_name@,
                name: name@,
                prototype: some_text(prototype),
                coded,
            },
        ),
        r is Some ==> r->0 < dex.methods.len(),
        r is Some ==> fits(
            dex.methods[r->0 as int],
            Wanted {
                class_name: class_name@,
                name: name@,
                prototype: some_text(prototype),
                coded,
            },
        ),
{
    let ghost wanted = Wanted {
        class_name: class_name@,
        name: name@,
        prototype: some_text(prototype),
        coded,
    };
    let mut i: usize = 0;
    while i < dex.methods.len()
        invariant
            i <= dex.methods.len(),
            wanted == (Wanted {
                class_name: class_name@,
                name: name@,
                prototype: some_text(prototype),
                coded,
            }),
            dex.first(wanted) == first_from(dex.methods@, i as nat, wanted),
        decreases dex.methods.len() - i,
    {
        if method_fits(&dex.methods[i], class_name, name, prototype, coded) {
            return Some(i);
        }
        i += 1;
    }
    None
}

impl DexFile {
    pub open spec fn first(&self, wanted: Wanted) -> Option<nat> {
        first_from(self.methods@, 0, wanted)
    }

    /// The first class definition of a name, from an index on.
    pub open spec fn definition(&self, name: Seq<char>, from: nat) -> Option<nat>
        decreases self.classes.len() - from,
    {
        if from >= self.classes.len() {
            None
        } else if self.classes[from as int].name@ == name {
            Some(from)
        } else {
            self.definition(name, from + 1)
        }
    }

    /// The super class of a class, where the program defines the class and it has one.
    pub open spec fn parent(&self, name: Seq<char>) -> Option<Seq<char>> {
        match self.definition(name, 0) {
            Some(i) => match self.classes[i as int].super_class {
                Some(s) => Some(s@),
                None => None,
            },
            None => None,
        }
    }

    pub fn super_class(&self, name: &str) -> (r: Option<&str>)
        ensures
            some_text(r) == self.parent(name@),
    {
        let mut i: usize = 0;
        while i < self.classes.len()
            invariant
                i <= self.classes.len(),
                self.definition(name@, 0) == self.definition(name@, i as nat),
            decreases self.classes.len() - i,
        {
            if text::same(self.classes[i].name.as_str(), name) {
                return match &self.classes[i].super_class {
                    Some(s) => Some(s.as_str()),
                    None => None,
                };
            }
            i += 1;
        }
        None
    }

    /// How many classes a walk up the hierarchy visits at most.
    pub open spec fn height(&self) -> nat {
        self.classes.len() as nat + 1
    }

    /// The method with code that a class has or inherits, within so many classes.
    pub open spec fn inherited(&self, wanted: Wanted, fuel: nat) -> Option<nat>
        decreases fuel,
    {
        if fuel == 0 {
            None
        } else {
            match self.first(wanted) {
                Some(i) => Some(i),
                None => match self.parent(wanted.class_name) {
                    Some(parent) => self.inherited(
                        Wanted { class_name: parent, ..wanted },
                        (fuel - 1) as nat,
                    ),
                    None => None,
                },
            }
        }
    }

    pub fn find_inherited(&self, class_name: &str, name: &str, prototype: Option<&str>) -> (r:
        Option<usize>)
        ensures
            some_index(r) == self.inherited(
                Wanted {
                    class_name: class_name@,
                    name: name@,
                    prototype: some_text(prototype),
                    coded: true,
                },
                self.height(),
            ),
            r is Some ==> r->0 < self.methods.len(),
            r is Some ==> self.methods[r->0 as int].name@ == name@,
    {
        let ghost wanted = Wanted {
            class_name: class_name@,
            name: name@,
            prototype: some_text(prototype),
            coded: true,
        };
        let mut current: &str = class_name;
        let mut steps: usize = 0;
        while steps <= self.classes.len()
            invariant
                steps <= self.classes.len(),
                wanted == (Wanted {
                    class_name: class_name@,
                    name: name@,
                    prototype: some_text(prototype),
                    coded: true,
                }),
                self.inherited(wanted, self.height()) == self.inherited(
                    Wanted { class_name: current@, ..wanted },
                    (self.height() - steps) as nat,
                ),
            decreases self.classes.len() + 1 - steps,
        {
            match find_method(self, current, name, prototype, true) {
                Some(i) => {
                    return Some(i);
                },
                None => {},
            }
            match self.super_class(current) {
                Some(parent) => {
                    current = parent;
                },
                None => {
                    return None;
                },
            }
            if steps == self.classes.len() {
                proof {
                    reveal_with_fuel(DexFile::inherited, 2);
                }
                return None;
            }
            steps += 1;
        }
        None
    }

    /// Whether a class is another one or descends from it, within so many classes.
    pub open spec fn descends(&self, actual: Seq<char>, expected: Seq<char>, fuel: nat) -> bool
        decreases fuel,
    {
        actual == expected || (fuel > 0 && match self.parent(actual) {
            Some(parent) => self.descends(parent, expected, (fuel - 1) as nat),
            None => false,
        })
    }

    pub fn is_assignable(&self, actual: &str, expected: &str) -> (r: bool)
        ensures
            r == self.descends(actual@, expected@, self.height()),
    {
        let mut current: &str = actual;
        let mut steps: usize = 0;
        while steps <= self.classes.len()
            invariant
                steps <= self.classes.len(),
                self.descends(actual@, expected@, self.height()) == self.descends(
                    current@,
                    expected@,
                    (self.height() - steps) as nat,
                ),
            decreases self.classes.len() + 1 - steps,
        {
            if text::same(current, expected) {
                return true;
            }
            match self.super_class(current) {
                Some(parent) => {
                    current = parent;
                },
                None => {
                    return false;
                },
            }
            if steps == self.classes.len() {
                proof {
                    reveal_with_fuel(DexFile::descends, 2);
                }
                return text::same(current, expected);
            }
            steps += 1;
        }
        false
    }

    // Fields.

    pub open spec fn field(&self, index: nat) -> Option<FieldId> {
        if index < self.fields.len() {
            Some(self.fields[index as int])
        } else {
            None
        }
    }

    pub fn field_id(&self, index: usize) -> (r: Option<&FieldId>)
        ensures
            r == (match self.field(index as nat) {
                Some(f) => Some(&f),
                None => None,
            }),
    {
        if index < self.fields.len() {
            Some(&self.fields[index])
        } else {
            None
        }
    }

    /// The name under which the value of a field is stored: `class->name:type`, or `#index`
    /// where there is no such field.
    pub open spec fn key(&self, index: nat) -> Seq<char> {
        match self.field(index) {
            Some(f) => f.class_name@ + "->"@ + f.name@ + ":"@ + f.descriptor@,
            None => "#"@ + text::decimal(index as int),
        }
    }

    pub fn field_key(&self, index: usize) -> (r: String)
        ensures
            r@ == self.key(index as nat),
    {
        match self.field_id(index) {
            Some(f) => text::join3(
                text::join3(f.class_name.as_str(), "->", f.name.as_str()).as_str(),
                ":",
                f.descriptor.as_str(),
            ),
            None => text::join("#", text::decimal_unsigned(index as u64).as_str()),
        }
    }

    pub open spec fn descriptor(&self, index: nat) -> Option<Seq<char>> {
        if index < self.types.len() {
            Some(self.types[index as int]@)
        } else {
            None
        }
    }

    pub fn type_at(&self, index: usize) -> (r: Option<&str>)
        ensures
            some_text(r) == self.descriptor(index as nat),
    {
        if index < self.types.len() {
            Some(self.types[index].as_str())
        } else {
            None
        }
    }
}

/// Whether a type is a primitive one.
pub open spec fn primitive(descriptor: Seq<char>) -> bool {
    descriptor == "I"@ || descriptor == "Z"@ || descriptor == "B"@ || descriptor == "S"@
        || descriptor == "C"@ || descriptor == "F"@ || descriptor == "J"@ || descriptor == "D"@
}

pub fn is_primitive(descriptor: &str) -> (r: bool)
    ensures
        r == primitive(descriptor@),
{
    text::same(descriptor, "I") || text::same(descriptor, "Z") || text::same(descriptor, "B")
        || text::same(descriptor, "S") || text::same(descriptor, "C") || text::same(
        descriptor,
        "F",
    ) || text::same(descriptor, "J") || text::same(descriptor, "D")
}

} // verus!
