use autoagents::agent::{Agent, ExecutorConfig, Strategy};
use autoagents::handle::{AgentBuilder, BuildError};
use autoagents::memory::Memory;
use autoagents::tool::{ToolChoice, ToolRegistry};

fn agent(strategy: Strategy, max_iterations: usize) -> Agent {
    Agent {
        name: "math_agent".to_string(),
        description: "You are a Math agent".to_string(),
        output_schema: None,
        tools: ToolRegistry::new(),
        strategy,
        config: ExecutorConfig {
            max_iterations,
            tool_choice: ToolChoice::Auto,
            require_structured_output: false,
        },
    }
}

#[test]
fn build_needs_a_backend() {
    let out = AgentBuilder::<u8>::new(agent(Strategy::Direct, 1)).memory(Memory::new(10)).build();
    assert_eq!(out.err(), Some(BuildError::MissingBackend));
}

#[test]
fn missing_backend_is_reported_before_a_bad_config() {
    let out = AgentBuilder::<u8>::new(agent(Strategy::Iterative, 0)).build();
    assert_eq!(out.err(), Some(BuildError::MissingBackend));
}

#[test]
fn iterative_agent_needs_at_least_one_iteration() {
    let out = AgentBuilder::new(agent(Strategy::Iterative, 0))
        .llm(1u8)
        .memory(Memory::new(10))
        .build();
    assert_eq!(out.err(), Some(BuildError::InvalidConfig));
}

#[test]
fn direct_agent_does_not_need_iterations() {
    let out = AgentBuilder::new(agent(Strategy::Direct, 0))
        .llm(1u8)
        .memory(Memory::new(10))
        .build();
    assert!(out.is_ok());
}

#[test]
fn build_needs_a_memory() {
    let out = AgentBuilder::new(agent(Strategy::Iterative, 1)).llm(1u8).build();
    assert_eq!(out.err(), Some(BuildError::MissingMemory));
}

#[test]
fn built_handle_holds_what_it_was_given() {
    let handle = AgentBuilder::new(agent(Strategy::Iterative, 4))
        .llm("client")
        .memory(Memory::new(10))
        .build()
        .ok()
        .unwrap();
    assert_eq!(handle.agent().name, "math_agent");
    assert_eq!(handle.agent().description, "You are a Math agent");
    assert_eq!(handle.agent().config.max_iterations, 4);
    assert_eq!(handle.agent().strategy, Strategy::Iterative);
    assert_eq!(*handle.backend(), "client");
    assert_eq!(handle.memory().capacity(), 10);
    assert!(handle.memory().is_empty());
}
