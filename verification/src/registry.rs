//! The tool registry, and the rules of executing a tool: preparation of the
//! call, the answer to a timeout, and the schedule of retries.

use vstd::prelude::*;
use crate::error::AgentError;
use crate::json::{json_map, JsonData, JsonValue};
use crate::lookup::{first_at, lemma_position, occurs, position};
use crate::textmap::TextMap;
use crate::tool::{call_valid, rejection_reason, with_defaults, Tool, ToolResult};
use crate::types::{Duration, ToolId};

verus! {

/// The id of each tool.
pub open spec fn tool_ids(tools: Seq<Tool>) -> Seq<ToolId> {
    Seq::new(tools.len(), |i: int| tools[i].id)
}

/// `tools` with `tool` in the place of the tool of the same id, or at the
/// end where there is none.
pub open spec fn with_tool(tools: Seq<Tool>, tool: Tool) -> Seq<Tool> {
    if occurs(tool_ids(tools), tool.id) {
        tools.update(position(tool_ids(tools), tool.id), tool)
    } else {
        tools.push(tool)
    }
}

/// The parameters of a call after the defaults of `tool` have been applied.
pub open spec fn prepared_parameters(tool: Tool, parameters: Map<Seq<char>, JsonData>) -> Map<
    Seq<char>,
    JsonData,
> {
    with_defaults(tool.parameters.entries@, parameters, tool.parameters.entries@.len())
}

/// Whether `error` rejects a call of `tool` with `parameters`: it carries
/// the name of the tool and the reason for which the parameters, with the
/// defaults applied, fail validation.
pub open spec fn rejected(tool: Tool, parameters: Map<Seq<char>, JsonData>, error: AgentError) -> bool {
    &&& error matches AgentError::InvalidToolParameters { tool_name, reason }
    &&& tool_name@ == tool.name@
    &&& exists|ready: TextMap<JsonValue>|
        json_map(ready) == prepared_parameters(tool, parameters) && #[trigger] rejection_reason(
            tool.parameters,
            ready,
            reason@,
        )
}

/// The registered tools, found by id and by name.
pub struct ToolRegistry {
    tools: Vec<Tool>,
    names: TextMap<ToolId>,
}

impl ToolRegistry {
    /// The registered tools, in the order of registration.
    pub closed spec fn tools(&self) -> Seq<Tool> {
        self.tools@
    }

    /// The id registered under each name.
    pub closed spec fn names(&self) -> Map<Seq<char>, ToolId> {
        self.names.model()
    }

    /// No name is held twice.
    pub closed spec fn wf(&self) -> bool {
        self.names.distinct()
    }

    /// Whether a tool of the given id is registered.
    pub open spec fn has_tool(&self, id: ToolId) -> bool {
        occurs(tool_ids(self.tools()), id)
    }

    /// The tool of the given id.
    pub open spec fn tool(&self, id: ToolId) -> Tool {
        self.tools()[position(tool_ids(self.tools()), id)]
    }

    /// An empty registry.
    pub fn new() -> (registry: Self)
        ensures
            registry.wf(),
            registry.tools() == Seq::<Tool>::empty(),
            registry.names() == Map::<Seq<char>, ToolId>::empty(),
    {
        let registry = ToolRegistry { tools: Vec::new(), names: TextMap::new() };
        assert(registry.tools@ =~= Seq::empty());
        registry
    }

    /// The place of the tool of the given id.
    fn find(&self, id: &ToolId) -> (found: Option<usize>)
        ensures
            found.is_some() == self.has_tool(*id),
            found matches Some(i) ==> i < self.tools().len() && i as int == position(
                tool_ids(self.tools()),
                *id,
            ) && self.tools()[i as int].id == *id,
    {
        let mut i: usize = 0;
        while i < self.tools.len()
            invariant
                i <= self.tools@.len(),
                forall|j: int| 0 <= j < i ==> self.tools@[j].id != *id,
            decreases self.tools.len() - i,
        {
            if self.tools[i].id == *id {
                proof {
                    assert(first_at(tool_ids(self.tools@), *id, i as int));
                    lemma_position(tool_ids(self.tools@), *id, i as int);
                }
                return Some(i);
            }
            i += 1;
        }
        assert forall|j: int| 0 <= j < tool_ids(self.tools@).len() implies tool_ids(self.tools@)[j]
            != *id by {
            assert(self.tools@[j].id != *id);
        }
        None
    }

    /// Registers a tool under its id and its name. A name that is taken is
    /// refused; a tool of an id that is registered already takes the place
    /// of the earlier one.
    pub fn register(&mut self, tool: Tool) -> (registered: Result<ToolId, AgentError>)
        requires
            old(self).wf(),
        ensures
            final(self).wf(),
            registered is Err <==> old(self).names().contains_key(tool.name@),
            registered matches Err(error) ==> (error matches AgentError::ToolAlreadyRegistered(
                name,
            ) && name@ == tool.name@),
            registered is Err ==> final(self).tools() == old(self).tools() && final(self).names()
                == old(self).names(),
            registered matches Ok(id) ==> id == tool.id && final(self).tools() == with_tool(
                old(self).tools(),
                tool,
            ) && final(self).names() == old(self).names().insert(tool.name@, tool.id),
    {
        if self.names.contains_key(tool.name.as_str()) {
            return Err(AgentError::ToolAlreadyRegistered(tool.name.clone()));
        }
        let id = tool.id;
        let name = tool.name.clone();
        match self.find(&id) {
            Some(place) => {
                self.tools[place] = tool;
            },
            None => {
                self.tools.push(tool);
            },
        }
        self.names.insert(name, id);
        Ok(id)
    }

    /// Takes the tool of the given id, and its name, out of the registry.
    pub fn unregister(&mut self, tool_id: &ToolId) -> (removed: Result<(), AgentError>)
        requires
            old(self).wf(),
        ensures
            final(self).wf(),
            removed is Ok <==> old(self).has_tool(*tool_id),
            removed matches Err(error) ==> error == AgentError::ToolNotFound(*tool_id),
            removed is Err ==> final(self).tools() == old(self).tools() && final(self).names()
                == old(self).names(),
            removed is Ok ==> final(self).tools() == old(self).tools().remove(
                position(tool_ids(old(self).tools()), *tool_id),
            ) && final(self).names() == old(self).names().remove(old(self).tool(*tool_id).name@),
    {
        match self.find(tool_id) {
            None => Err(AgentError::ToolNotFound(*tool_id)),
            Some(place) => {
                let tool = self.tools.remove(place);
                self.names.remove(tool.name.as_str());
                Ok(())
            },
        }
    }

    /// The tool of the given id.
    pub fn get(&self, tool_id: &ToolId) -> (found: Option<&Tool>)
        ensures
            found.is_some() == self.has_tool(*tool_id),
            found matches Some(tool) ==> *tool == self.tool(*tool_id) && tool.id == *tool_id,
    {
        match self.find(tool_id) {
            Some(place) => Some(&self.tools[place]),
            None => None,
        }
    }

    /// The tool registered under the given name.
    pub fn get_by_name(&self, name: &str) -> (found: Option<&Tool>)
        ensures
            found.is_some() == (self.names().contains_key(name@) && self.has_tool(
                self.names()[name@],
            )),
            found matches Some(tool) ==> *tool == self.tool(self.names()[name@]),
    {
        match self.names.get(name) {
            None => None,
            Some(id) => self.get(id),
        }
    }

    /// Every registered tool, in the order of registration.
    pub fn list(&self) -> (listed: Vec<&Tool>)
        ensures
            listed@.len() == self.tools().len(),
            forall|i: int| 0 <= i < listed@.len() ==> *listed@[i] == self.tools()[i],
    {
        let mut listed: Vec<&Tool> = Vec::new();
        let mut i: usize = 0;
        while i < self.tools.len()
            invariant
                i <= self.tools@.len(),
                listed@.len() == i,
                forall|k: int| 0 <= k < i ==> *listed@[k] == self.tools@[k],
            decreases self.tools.len() - i,
        {
            listed.push(&self.tools[i]);
            i += 1;
        }
        listed
    }

    /// Prepares a call of the tool `tool_id`: applies the declared defaults
    /// to `parameters` and checks the outcome against the declarations. The
    /// parameters handed back are the ones to run the tool with.
    pub fn prepare(&self, tool_id: &ToolId, parameters: TextMap<JsonValue>) -> (prepared: Result<
        TextMap<JsonValue>,
        AgentError,
    >)
        ensures
            prepared is Ok <==> self.has_tool(*tool_id) && call_valid(
                self.tool(*tool_id).parameters,
                prepared_parameters(self.tool(*tool_id), json_map(parameters)),
            ),
            prepared matches Ok(ready) ==> json_map(ready) == prepared_parameters(
                self.tool(*tool_id),
                json_map(parameters),
            ),
            prepared matches Err(error) ==> (if self.has_tool(*tool_id) {
                rejected(self.tool(*tool_id), json_map(parameters), error)
            } else {
                error == AgentError::ToolNotFound(*tool_id)
            }),
    {
        let tool = match self.get(tool_id) {
            Some(tool) => tool,
            None => {
                return Err(AgentError::ToolNotFound(*tool_id));
            },
        };
        let mut ready = parameters;
        tool.apply_defaults(&mut ready);
        match tool.validate_parameters(&ready) {
            Ok(()) => Ok(ready),
            Err(error) => {
                proof {
                    let reason = error->InvalidToolParameters_reason;
                    assert(json_map(ready) == prepared_parameters(*tool, json_map(parameters))
                        && rejection_reason(tool.parameters, ready, reason@));
                }
                Err(error)
            },
        }
    }
}

impl ToolRegistry {
    /// Executes the tool `tool_id`: prepares the call, then hands the tool
    /// and the prepared parameters to `run`, which stands for the body of the
    /// tool, and returns what it returns.
    pub fn execute<F>(&self, tool_id: &ToolId, parameters: TextMap<JsonValue>, run: F) -> (result:
        Result<ToolResult, AgentError>) where
        F: FnOnce(&Tool, TextMap<JsonValue>) -> Result<ToolResult, AgentError>,

        requires
            forall|tool: &Tool, ready: TextMap<JsonValue>| run.requires((tool, ready)),
        ensures
            !self.has_tool(*tool_id) ==> result == Err::<ToolResult, AgentError>(
                AgentError::ToolNotFound(*tool_id),
            ),
            self.has_tool(*tool_id) && !call_valid(
                self.tool(*tool_id).parameters,
                prepared_parameters(self.tool(*tool_id), json_map(parameters)),
            ) ==> (result matches Err(error) && rejected(
                self.tool(*tool_id),
                json_map(parameters),
                error,
            )),
            self.has_tool(*tool_id) && call_valid(
                self.tool(*tool_id).parameters,
                prepared_parameters(self.tool(*tool_id), json_map(parameters)),
            ) ==> exists|ready: TextMap<JsonValue>|
                json_map(ready) == prepared_parameters(self.tool(*tool_id), json_map(parameters))
                    && run.ensures((&self.tool(*tool_id), ready), result),
    {
        match self.prepare(tool_id, parameters) {
            Err(error) => Err(error),
            Ok(ready) => {
                let tool = match self.get(tool_id) {
                    Some(tool) => tool,
                    None => {
                        return Err(AgentError::ToolNotFound(*tool_id));
                    },
                };
                run(tool, ready)
            },
        }
    }

    /// Concludes a call that was given `timeout_duration` to finish.
    /// `outcome` is what the call produced in time, `None` where the time
    /// ran out first: that is answered with a timeout error under the name
    /// of the tool, or `unknown` where the tool is not registered.
    pub fn execute_with_timeout(
        &self,
        tool_id: &ToolId,
        outcome: Option<Result<ToolResult, AgentError>>,
        timeout_duration: Duration,
    ) -> (result: Result<ToolResult, AgentError>)
        ensures
            outcome matches Some(finished) ==> result == finished,
            outcome is None ==> (result matches Err(
                AgentError::ToolTimeout { tool_name, timeout },
            ) && timeout == timeout_duration && tool_name@ == (if self.has_tool(*tool_id) {
                self.tool(*tool_id).name@
            } else {
                "unknown"@
            })),
    {
        match outcome {
            Some(finished) => finished,
            None => {
                let tool_name = match self.get(tool_id) {
                    Some(tool) => tool.name.clone(),
                    None => "unknown".to_owned(),
                };
                Err(AgentError::ToolTimeout { tool_name, timeout: timeout_duration })
            },
        }
    }
}

/// What to do after an attempt to execute a tool.
#[derive(Debug)]
pub enum RetryDecision {
    /// Hand this result to the caller.
    Done(Result<ToolResult, AgentError>),
    /// Wait `delay_ms` milliseconds, then make attempt number `attempt`
    /// (counted from 0).
    RetryAfter { delay_ms: u64, attempt: u32 },
}

/// The delay before retry number `retry` (counted from 0): the base delay,
/// doubled for each retry before it, and never beyond `u64::MAX`.
pub open spec fn backoff_delay(base: u64, retry: nat) -> u64
    decreases retry,
{
    if retry == 0 {
        base
    } else {
        let before = backoff_delay(base, (retry - 1) as nat);
        if before > u64::MAX / 2 {
            u64::MAX
        } else {
            (before * 2) as u64
        }
    }
}

/// Whether an attempt that failed with `error` may be repeated. An unknown
/// tool and parameters that fail validation would fail again.
pub open spec fn retryable(error: AgentError) -> bool {
    !(error is ToolNotFound) && !(error is InvalidToolParameters)
}

proof fn lemma_backoff_settles(base: u64, from: nat, to: nat)
    requires
        from <= to,
        backoff_delay(base, from) == 0 || backoff_delay(base, from) == u64::MAX,
    ensures
        backoff_delay(base, to) == backoff_delay(base, from),
    decreases to,
{
    if from < to {
        lemma_backoff_settles(base, from, (to - 1) as nat);
    }
}

/// The delay before retry number `retry`.
pub fn backoff(base: u64, retry: u32) -> (delay: u64)
    ensures
        delay == backoff_delay(base, retry as nat),
{
    let mut delay = base;
    let mut done: u32 = 0;
    while done < retry
        invariant
            done <= retry,
            delay == backoff_delay(base, done as nat),
        decreases retry - done,
    {
        if delay == 0 || delay == u64::MAX {
            proof {
                lemma_backoff_settles(base, done as nat, retry as nat);
            }
            return delay;
        }
        delay = if delay > u64::MAX / 2 {
            u64::MAX
        } else {
            delay * 2
        };
        done += 1;
    }
    delay
}

/// Decides what follows attempt number `attempt` (counted from 0) of an
/// execution that allows `max_retries` retries: a success, an error that
/// cannot be retried and the error of the last attempt go to the caller;
/// any other error is followed by a wait and the next attempt.
pub fn execute_with_retry(
    outcome: Result<ToolResult, AgentError>,
    attempt: u32,
    max_retries: u32,
    base_backoff_ms: u64,
) -> (decision: RetryDecision)
    ensures
        match outcome {
            Ok(_) => decision == RetryDecision::Done(outcome),
            Err(error) => if retryable(error) && attempt < max_retries {
                decision == (RetryDecision::RetryAfter {
                    delay_ms: backoff_delay(base_backoff_ms, attempt as nat),
                    attempt: (attempt + 1) as u32,
                })
            } else {
                decision == RetryDecision::Done(outcome)
            },
        },
{
    let again = match &outcome {
        Ok(_) => false,
        Err(AgentError::ToolNotFound(_)) => false,
        Err(AgentError::InvalidToolParameters { .. }) => false,
        Err(_) => attempt < max_retries,
    };
    if again {
        RetryDecision::RetryAfter { delay_ms: backoff(base_backoff_ms, attempt), attempt: attempt
            + 1 }
    } else {
        RetryDecision::Done(outcome)
    }
}

impl Default for ToolRegistry {
    fn default() -> (made: Self)
        ensures
            made.wf(),
            made.tools() == Seq::<Tool>::empty(),
            made.names() == Map::<Seq<char>, ToolId>::empty(),
    {
        Self::new()
    }
}

} // verus!
