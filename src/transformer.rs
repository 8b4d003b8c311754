//! Transformation of a routed message according to its rule.

use vstd::prelude::*;

use crate::config::{TransformType, TranslationRule};
use crate::error::GatewayError;
use crate::protocols::{same_metadata, CommonMessage};
use crate::text::{parse_u8, parse_u8_spec, str_eq, FieldMap};

verus! {

/// A named transformation that a rule of kind `Custom` can select.
pub trait TransformModule {
    /// The name the module registers under.
    spec fn name_spec(&self) -> Seq<char>;

    /// Whether `r` is what the module gives for `m`.
    spec fn transform_spec(&self, m: CommonMessage, r: Result<CommonMessage, GatewayError>) -> bool;

    fn transform(&self, message: &CommonMessage) -> (r: Result<CommonMessage, GatewayError>)
        ensures
            self.transform_spec(*message, r),
    ;

    fn name(&self) -> (r: &str)
        ensures
            r@ == self.name_spec(),
    ;
}

/// Whether `t` is `m` with the given target and priority.
pub open spec fn retargeted(t: CommonMessage, m: CommonMessage, target: Option<crate::protocols::ProtocolType>, priority: u8) -> bool {
    &&& t.source_protocol == m.source_protocol
    &&& t.target_protocol == target
    &&& t.priority == priority
    &&& t.payload@ == m.payload@
    &&& same_metadata(t.metadata, m.metadata)
}

/// The priority a field map sets: its `priority` value where that is a byte.
pub open spec fn mapped_priority(f: FieldMap, p: u8) -> u8 {
    match f.lookup("priority"@) {
        Some(v) => match parse_u8_spec(v) {
            Some(n) => n,
            None => p,
        },
        None => p,
    }
}

/// The index of the last module registered under `name`, if any.
pub open spec fn module_index<M: TransformModule>(mods: Seq<Box<M>>, name: Seq<char>) -> Option<int>
    decreases mods.len(),
{
    if mods.len() == 0 {
        None
    } else if mods.last().name_spec() == name {
        Some(mods.len() - 1)
    } else {
        module_index(mods.drop_last(), name)
    }
}

proof fn lemma_module_index_bounds<M: TransformModule>(mods: Seq<Box<M>>, name: Seq<char>)
    ensures
        module_index(mods, name) matches Some(i) ==> 0 <= i < mods.len() && mods[i].name_spec() == name,
    decreases mods.len(),
{
    if mods.len() > 0 && mods.last().name_spec() != name {
        lemma_module_index_bounds(mods.drop_last(), name);
        if let Some(i) = module_index(mods.drop_last(), name) {
            assert(mods.drop_last()[i] == mods[i]);
        }
    }
}

/// Applies rules' transformations; custom modules of type `M` register by name.
pub struct Transformer<M: TransformModule = HeaderEnrichmentTransform> {
    modules: Vec<Box<M>>,
}

impl Transformer<HeaderEnrichmentTransform> {
    /// A transformer whose custom modules are header enrichments.
    pub fn new() -> (r: Transformer<HeaderEnrichmentTransform>)
        ensures
            r.modules_spec().len() == 0,
    {
        Transformer { modules: Vec::new() }
    }
}

impl<M: TransformModule> Transformer<M> {
    /// The registered modules in order of registration.
    pub closed spec fn modules_spec(&self) -> Seq<Box<M>> {
        self.modules@
    }

    /// A transformer with no modules.
    pub fn empty() -> (r: Transformer<M>)
        ensures
            r.modules_spec().len() == 0,
    {
        Transformer { modules: Vec::new() }
    }

    /// Registers a module; a later module of the same name takes its place.
    pub fn register_module(&mut self, module: Box<M>)
        ensures
            final(self).modules_spec() == old(self).modules_spec().push(module),
    {
        self.modules.push(module);
    }

    fn find_module(&self, name: &str) -> (r: Option<usize>)
        ensures
            r matches Some(i) ==> module_index(self.modules@, name@) == Some(i as int),
            r is None ==> module_index(self.modules@, name@) is None,
    {
        let mut i: usize = self.modules.len();
        assert(self.modules@.subrange(0, i as int) =~= self.modules@);
        while i > 0
            invariant
                i <= self.modules@.len(),
                module_index(self.modules@, name@) == module_index(self.modules@.subrange(0, i as int), name@),
            decreases i,
        {
            let ghost s = self.modules@.subrange(0, i as int);
            assert(s.drop_last() =~= self.modules@.subrange(0, i - 1));
            assert(s.last() == self.modules@[i - 1]);
            if str_eq(self.modules[i - 1].name(), name) {
                return Some(i - 1);
            }
            i = i - 1;
        }
        None
    }

    /// `message` retargeted to `rule.target` and transformed as the rule
    /// says: unchanged beyond that for `Identity` or no transform, with the
    /// priority a field map sets for `FieldMap`, and through the last module
    /// registered under the name for `Custom`, which fails with `NoTransform`
    /// where no module has that name.
    pub fn transform(&self, message: &CommonMessage, rule: &TranslationRule) -> (r: Result<
        CommonMessage,
        GatewayError,
    >)
        ensures
            match rule.transform {
                None | Some(TransformType::Identity) => r matches Ok(t) && retargeted(
                    t,
                    *message,
                    Some(rule.target),
                    message.priority,
                ),
                Some(TransformType::FieldMap(f)) => r matches Ok(t) && retargeted(
                    t,
                    *message,
                    Some(rule.target),
                    mapped_priority(f, message.priority),
                ),
                Some(TransformType::Custom(n)) => match module_index(self.modules_spec(), n@) {
                    None => r == Err::<CommonMessage, GatewayError>(GatewayError::NoTransform),
                    Some(i) => exists|t: CommonMessage|
                        retargeted(t, *message, Some(rule.target), message.priority)
                            && #[trigger] self.modules_spec()[i].transform_spec(t, r),
                },
            },
    {
        let mut transformed = message.clone();
        transformed.target_protocol = Some(rule.target);
        match &rule.transform {
            Some(TransformType::FieldMap(map)) => {
                if let Some(v) = map.get("priority") {
                    if let Some(p) = parse_u8(v.as_str()) {
                        transformed.priority = p;
                    }
                }
                Ok(transformed)
            },
            Some(TransformType::Custom(name)) => {
                proof {
                    lemma_module_index_bounds(self.modules@, name@);
                }
                match self.find_module(name.as_str()) {
                    Some(i) => {
                        let r = self.modules[i].transform(&transformed);
                        assert(self.modules@[i as int].transform_spec(transformed, r));
                        r
                    },
                    None => Err(GatewayError::NoTransform),
                }
            },
            _ => Ok(transformed),
        }
    }
}

/// A module that raises a message's priority value by one, saturating, and
/// carries fields for enriching headers.
#[derive(Debug)]
pub struct HeaderEnrichmentTransform {
    name: String,
    enrichment_fields: FieldMap,
}

impl HeaderEnrichmentTransform {
    pub fn new(name: &str) -> (r: HeaderEnrichmentTransform)
        ensures
            r.name_spec() == name@,
            r.fields_spec() == Map::<Seq<char>, Seq<char>>::empty(),
    {
        HeaderEnrichmentTransform { name: String::from_str(name), enrichment_fields: FieldMap::new() }
    }

    /// The enrichment fields.
    pub closed spec fn fields_spec(&self) -> Map<Seq<char>, Seq<char>> {
        self.enrichment_fields@
    }

    /// Sets an enrichment field.
    pub fn add_field(&mut self, key: &str, value: &str)
        ensures
            final(self).name_spec() == old(self).name_spec(),
            final(self).fields_spec() == old(self).fields_spec().insert(key@, value@),
    {
        self.enrichment_fields.insert(String::from_str(key), String::from_str(value));
    }
}

impl TransformModule for HeaderEnrichmentTransform {
    closed spec fn name_spec(&self) -> Seq<char> {
        self.name@
    }

    open spec fn transform_spec(&self, m: CommonMessage, r: Result<CommonMessage, GatewayError>) -> bool {
        r matches Ok(t) && retargeted(
            t,
            m,
            m.target_protocol,
            if m.priority == 255 { 255u8 } else { (m.priority + 1) as u8 },
        )
    }

    fn transform(&self, message: &CommonMessage) -> (r: Result<CommonMessage, GatewayError>) {
        let mut transformed = message.clone();
        transformed.priority = if message.priority == 255 { 255 } else { message.priority + 1 };
        Ok(transformed)
    }

    fn name(&self) -> (r: &str) {
        self.name.as_str()
    }
}

} // verus!
