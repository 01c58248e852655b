//! Chat model capability declarations.
use vstd::prelude::*;

verus! {

/// One provider-neutral feature supported by a chat model.
#[derive(Clone, Copy, Debug, PartialEq, Eq, PartialOrd, Ord, Structural)]
pub enum ModelCapability {
    /// The model can emit incremental responses.
    Streaming,
    /// The model can request tools.
    ToolCalls,
    /// The model supports schema-constrained output.
    StructuredOutput,
    /// The model accepts multimodal input blocks.
    MultimodalInput,
}

/// The name of a capability.
pub open spec fn capability_text(capability: ModelCapability) -> Seq<char> {
    match capability {
        ModelCapability::Streaming => "streaming"@,
        ModelCapability::ToolCalls => "tool_calls"@,
        ModelCapability::StructuredOutput => "structured_output"@,
        ModelCapability::MultimodalInput => "multimodal_input"@,
    }
}

/// All capabilities in wire order.
pub open spec fn wire_order() -> Seq<ModelCapability> {
    seq![
        ModelCapability::Streaming,
        ModelCapability::ToolCalls,
        ModelCapability::StructuredOutput,
        ModelCapability::MultimodalInput,
    ]
}

impl ModelCapability {
    /// The name of the capability.
    pub fn as_str(self) -> (name: &'static str)
        ensures
            name@ == capability_text(self),
    {
        match self {
            ModelCapability::Streaming => "streaming",
            ModelCapability::ToolCalls => "tool_calls",
            ModelCapability::StructuredOutput => "structured_output",
            ModelCapability::MultimodalInput => "multimodal_input",
        }
    }
}

/// Provider-neutral capabilities advertised by a chat model.
#[derive(Clone, Copy, Debug, PartialEq, Eq, Structural)]
pub struct ModelCapabilities {
    streaming: bool,
    tool_calls: bool,
    structured_output: bool,
    multimodal_input: bool,
}

impl View for ModelCapabilities {
    type V = spec_fn(ModelCapability) -> bool;

    closed spec fn view(&self) -> spec_fn(ModelCapability) -> bool {
        |capability: ModelCapability|
            match capability {
                ModelCapability::Streaming => self.streaming,
                ModelCapability::ToolCalls => self.tool_calls,
                ModelCapability::StructuredOutput => self.structured_output,
                ModelCapability::MultimodalInput => self.multimodal_input,
            }
    }
}

impl Default for ModelCapabilities {
    fn default() -> (capabilities: ModelCapabilities)
        ensures
            forall|capability: ModelCapability| !#[trigger] (capabilities@)(capability),
    {
        ModelCapabilities::new()
    }
}

impl ModelCapabilities {
    /// Creates an empty capability declaration.
    pub fn new() -> (capabilities: ModelCapabilities)
        ensures
            forall|capability: ModelCapability| !#[trigger] (capabilities@)(capability),
    {
        ModelCapabilities {
            streaming: false,
            tool_calls: false,
            structured_output: false,
            multimodal_input: false,
        }
    }

    /// Creates a declaration containing every currently known capability.
    pub fn all() -> (capabilities: ModelCapabilities)
        ensures
            forall|capability: ModelCapability| #[trigger] (capabilities@)(capability),
    {
        ModelCapabilities {
            streaming: true,
            tool_calls: true,
            structured_output: true,
            multimodal_input: true,
        }
    }

    /// Whether a capability is supported.
    pub fn supports(&self, capability: ModelCapability) -> (supported: bool)
        ensures
            supported == (self@)(capability),
    {
        match capability {
            ModelCapability::Streaming => self.streaming,
            ModelCapability::ToolCalls => self.tool_calls,
            ModelCapability::StructuredOutput => self.structured_output,
            ModelCapability::MultimodalInput => self.multimodal_input,
        }
    }

    /// Enables or disables one capability.
    pub fn with(self, capability: ModelCapability, enabled: bool) -> (capabilities: ModelCapabilities)
        ensures
            forall|other: ModelCapability| #[trigger]
                (capabilities@)(other) == if other == capability {
                    enabled
                } else {
                    (self@)(other)
                },
    {
        let mut capabilities = self;
        match capability {
            ModelCapability::Streaming => {
                capabilities.streaming = enabled;
            },
            ModelCapability::ToolCalls => {
                capabilities.tool_calls = enabled;
            },
            ModelCapability::StructuredOutput => {
                capabilities.structured_output = enabled;
            },
            ModelCapability::MultimodalInput => {
                capabilities.multimodal_input = enabled;
            },
        }
        capabilities
    }

    /// The supported capabilities in stable wire order.
    pub fn iter(&self) -> (supported: Vec<ModelCapability>)
        ensures
            supported@ == wire_order().filter(self@),
    {
        let mut supported: Vec<ModelCapability> = Vec::new();
        if self.streaming {
            supported.push(ModelCapability::Streaming);
        }
        if self.tool_calls {
            supported.push(ModelCapability::ToolCalls);
        }
        if self.structured_output {
            supported.push(ModelCapability::StructuredOutput);
        }
        if self.multimodal_input {
            supported.push(ModelCapability::MultimodalInput);
        }
        proof {
            reveal(Seq::filter);
            let all = wire_order();
            let three = all.drop_last();
            let two = three.drop_last();
            let one = two.drop_last();
            let none = one.drop_last();
            assert(none.filter(self@) =~= Seq::empty());
            let first: Seq<ModelCapability> = if self.streaming {
                seq![ModelCapability::Streaming]
            } else {
                seq![]
            };
            assert(one.last() == ModelCapability::Streaming);
            assert(one.filter(self@) =~= first);
            let second = if self.tool_calls {
                first.push(ModelCapability::ToolCalls)
            } else {
                first
            };
            assert(two.last() == ModelCapability::ToolCalls);
            assert(two.filter(self@) =~= second);
            let third = if self.structured_output {
                second.push(ModelCapability::StructuredOutput)
            } else {
                second
            };
            assert(three.last() == ModelCapability::StructuredOutput);
            assert(three.filter(self@) =~= third);
            assert(all.last() == ModelCapability::MultimodalInput);
            assert(supported@ =~= all.filter(self@));
        }
        supported
    }
}

} // verus!
